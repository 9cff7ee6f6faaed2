//! From the rows of the input to the targets of a scan.

use crate::error::{OllamaError, OllamaErrorView};
use crate::storage::models::{
    borrowed_targets, target_views, OllamaAssetCsv, OllamaAssetCsvView, Target, TargetView,
};
use crate::utils::text::{decimal, decimal_text};
use crate::utils::url_parts::{read_url, url_parts, UrlParts, UrlPartsView};
use vstd::prelude::*;
use vstd::string::*;

verus! {

/// The provenance of the row on line `line`.
pub open spec fn source_label(line: nat) -> Seq<char> {
    "Ollama-Assets-Line-"@ + decimal(line)
}

/// The port of a URL with scheme `http` or `https`: the one it names, else
/// 443 for `https` and 80 for `http`.
pub open spec fn resolved_port(port: Option<u16>, is_https: bool) -> u16 {
    match port {
        Some(named) => named,
        None => if is_https {
            443
        } else {
            80
        },
    }
}

/// The target that the parts of a link make, or why they make none. A link
/// that is no URL is malformed, and so is a URL without a host, with an empty
/// host, or with port 0, whatever its scheme; of the rest, a scheme other
/// than `http` and `https` is not supported.
pub open spec fn adapted(
    parts: Option<UrlPartsView>,
    link: Seq<char>,
    country: Seq<char>,
    line: nat,
) -> Result<TargetView, OllamaErrorView> {
    match parts {
        None => Err(OllamaErrorView::MalformedInput(link)),
        Some(p) => match p.host {
            None => Err(OllamaErrorView::MalformedInput(link)),
            Some(host) => if host.len() == 0 || p.port == Some(0u16) {
                Err(OllamaErrorView::MalformedInput(link))
            } else if p.scheme == "https"@ || p.scheme == "http"@ {
                Ok(
                    TargetView {
                        host,
                        port: resolved_port(p.port, p.scheme == "https"@),
                        source: source_label(line),
                        country: Some(country),
                        is_https: p.scheme == "https"@,
                    },
                )
            } else {
                Err(OllamaErrorView::UnsupportedScheme(link))
            },
        },
    }
}

/// Every target made of the parts of a link can be probed: it names a host
/// and a port from 1 to 65535. It bears the country and the line it was given.
pub proof fn lemma_adapted_target_is_valid(
    parts: Option<UrlPartsView>,
    link: Seq<char>,
    country: Seq<char>,
    line: nat,
)
    ensures
        match adapted(parts, link, country, line) {
            Ok(target) => target.is_valid() && 1 <= target.port <= 65535 && target.host.len() > 0
                && target.country == Some(country) && target.source == source_label(line),
            Err(error) => error == OllamaErrorView::MalformedInput(link) || error
                == OllamaErrorView::UnsupportedScheme(link),
        },
{
}

/// The target of one row, or why it has none.
pub open spec fn row_target(row: OllamaAssetCsvView, line: nat) -> Result<
    TargetView,
    OllamaErrorView,
> {
    adapted(url_parts(row.link), row.link, row.country, line)
}

/// The targets of `rows`, in order: one for each row that has a target,
/// where the first row stands on line 1.
pub open spec fn row_targets(rows: Seq<OllamaAssetCsvView>) -> Seq<TargetView>
    decreases rows.len(),
{
    if rows.len() == 0 {
        Seq::empty()
    } else {
        match row_target(rows.last(), rows.len()) {
            Ok(target) => row_targets(rows.drop_last()).push(target),
            Err(_) => row_targets(rows.drop_last()),
        }
    }
}

/// The number of `rows` that have a target.
pub open spec fn accepted_rows(rows: Seq<OllamaAssetCsvView>) -> nat
    decreases rows.len(),
{
    if rows.len() == 0 {
        0
    } else if row_target(rows.last(), rows.len()) is Ok {
        accepted_rows(rows.drop_last()) + 1
    } else {
        accepted_rows(rows.drop_last())
    }
}

/// The rows of `rows` that have no target, in order: the line of each and
/// why it has none, where the first row stands on line 1.
pub open spec fn row_rejections(rows: Seq<OllamaAssetCsvView>) -> Seq<(nat, OllamaErrorView)>
    decreases rows.len(),
{
    if rows.len() == 0 {
        Seq::empty()
    } else {
        match row_target(rows.last(), rows.len()) {
            Ok(_) => row_rejections(rows.drop_last()),
            Err(error) => row_rejections(rows.drop_last()).push((rows.len(), error)),
        }
    }
}

/// The views of a list of rows, in order.
pub open spec fn row_views(rows: Seq<OllamaAssetCsv>) -> Seq<OllamaAssetCsvView> {
    rows.map_values(|row: OllamaAssetCsv| row@)
}

/// The views of a list of rejections, in order.
pub open spec fn rejection_views(rejections: Seq<(usize, OllamaError)>) -> Seq<
    (nat, OllamaErrorView),
> {
    rejections.map_values(|rejection: (usize, OllamaError)| (rejection.0 as nat, rejection.1@))
}

/// There is one target for each row that has one and one rejection for each
/// of the others, so that no row is lost and none is counted twice.
pub proof fn lemma_one_target_per_accepted_row(rows: Seq<OllamaAssetCsvView>)
    ensures
        row_targets(rows).len() == accepted_rows(rows),
        row_targets(rows).len() <= rows.len(),
        row_targets(rows).len() + row_rejections(rows).len() == rows.len(),
    decreases rows.len(),
{
    if rows.len() > 0 {
        lemma_one_target_per_accepted_row(rows.drop_last());
    }
}

/// Every target of a list of rows can be probed: it names a host and a port
/// from 1 to 65535.
pub proof fn lemma_row_targets_are_valid(rows: Seq<OllamaAssetCsvView>)
    ensures
        forall|k: int|
            0 <= k < row_targets(rows).len() ==> (#[trigger] row_targets(rows)[k]).is_valid(),
    decreases rows.len(),
{
    if rows.len() > 0 {
        lemma_row_targets_are_valid(rows.drop_last());
        lemma_adapted_target_is_valid(
            url_parts(rows.last().link),
            rows.last().link,
            rows.last().country,
            rows.len(),
        );
        let earlier = row_targets(rows.drop_last());
        assert forall|k: int| 0 <= k < row_targets(rows).len() implies (#[trigger] row_targets(
            rows,
        )[k]).is_valid() by {
            if k < earlier.len() {
                assert(row_targets(rows)[k] == earlier[k]);
            }
        }
    }
}

pub struct CsvParser;

impl CsvParser {
    /// Makes the target of a link from the parts read from it.
    pub fn target_from_parts(
        parts: Option<UrlParts>,
        link: &str,
        country: &str,
        line_num: usize,
    ) -> (made: Result<Target, OllamaError>)
        ensures
            match made {
                Ok(target) => adapted(
                    match parts {
                        Some(p) => Some(p@),
                        None => None,
                    },
                    link@,
                    country@,
                    line_num as nat,
                ) == Ok::<TargetView, OllamaErrorView>(target@),
                Err(error) => adapted(
                    match parts {
                        Some(p) => Some(p@),
                        None => None,
                    },
                    link@,
                    country@,
                    line_num as nat,
                ) == Err::<TargetView, OllamaErrorView>(error@),
            },
            made is Ok ==> made->Ok_0@.is_valid(),
    {
        let parts = match parts {
            Some(p) => p,
            None => {
                return Err(OllamaError::MalformedInput(String::from_str(link)));
            },
        };
        let host = match parts.host {
            Some(host) => host,
            None => {
                return Err(OllamaError::MalformedInput(String::from_str(link)));
            },
        };
        let names_port_zero = match parts.port {
            Some(named) => named == 0,
            None => false,
        };
        if host.as_str().is_empty() || names_port_zero {
            return Err(OllamaError::MalformedInput(String::from_str(link)));
        }
        let is_https = parts.scheme == String::from_str("https");
        let is_http = parts.scheme == String::from_str("http");
        if !is_https && !is_http {
            return Err(OllamaError::UnsupportedScheme(String::from_str(link)));
        }
        let port = match parts.port {
            Some(named) => named,
            None => if is_https {
                443
            } else {
                80
            },
        };
        let mut source = String::from_str("Ollama-Assets-Line-");
        source.append(decimal_text(line_num as u64).as_str());
        Ok(Target { host, port, source, country: Some(String::from_str(country)), is_https })
    }

    /// Makes the target of the link `url_str`, found on line `line_num`.
    pub fn parse_url_to_target(url_str: &str, country: &str, line_num: usize) -> (made: Result<
        Target,
        OllamaError,
    >)
        ensures
            match made {
                Ok(target) => adapted(url_parts(url_str@), url_str@, country@, line_num as nat)
                    == Ok::<TargetView, OllamaErrorView>(target@),
                Err(error) => adapted(url_parts(url_str@), url_str@, country@, line_num as nat)
                    == Err::<TargetView, OllamaErrorView>(error@),
            },
            made is Ok ==> made->Ok_0@.is_valid(),
    {
        Self::target_from_parts(read_url(url_str), url_str, country, line_num)
    }

    /// Makes the targets of `rows`, and says of each row that makes none on
    /// which line it stands and why. A row whose link makes no target is left
    /// out, and the rows after it are still read.
    pub fn adapt_rows(rows: &Vec<OllamaAssetCsv>) -> (made: (
        Vec<Target>,
        Vec<(usize, OllamaError)>,
    ))
        ensures
            target_views(made.0@) == row_targets(row_views(rows@)),
            rejection_views(made.1@) == row_rejections(row_views(rows@)),
            made.0.len() == accepted_rows(row_views(rows@)),
            made.0.len() + made.1.len() == rows.len(),
            forall|k: int| 0 <= k < made.0.len() ==> (#[trigger] made.0[k])@.is_valid(),
    {
        let mut targets: Vec<Target> = Vec::new();
        let mut rejections: Vec<(usize, OllamaError)> = Vec::new();
        let mut i: usize = 0;
        assert(row_views(rows@).take(0) =~= Seq::empty());
        assert(target_views(targets@) =~= Seq::empty());
        assert(rejection_views(rejections@) =~= Seq::empty());
        while i < rows.len()
            invariant
                i <= rows.len(),
                target_views(targets@) == row_targets(row_views(rows@).take(i as int)),
                rejection_views(rejections@) == row_rejections(row_views(rows@).take(i as int)),
            decreases rows.len() - i,
        {
            let ghost before = row_views(rows@).take(i as int);
            let ghost upto = row_views(rows@).take(i + 1);
            assert(upto.drop_last() =~= before);
            assert(upto.last() == rows@[i as int]@);
            let ghost kept = target_views(targets@);
            let ghost refused = rejection_views(rejections@);
            match Self::parse_url_to_target(rows[i].link.as_str(), rows[i].country.as_str(), i + 1)
            {
                Ok(target) => {
                    targets.push(target);
                    assert(target_views(targets@) =~= kept.push(target@));
                },
                Err(error) => {
                    rejections.push((i + 1, error));
                    assert(rejection_views(rejections@) =~= refused.push(((i + 1) as nat, error@)));
                },
            }
            i += 1;
        }
        assert(row_views(rows@).take(i as int) =~= row_views(rows@));
        proof {
            lemma_one_target_per_accepted_row(row_views(rows@));
            lemma_row_targets_are_valid(row_views(rows@));
            assert(target_views(targets@).len() == targets.len());
            assert(rejection_views(rejections@).len() == rejections.len());
            assert forall|k: int| 0 <= k < targets.len() implies (#[trigger] targets[k])@.is_valid() by {
                assert(target_views(targets@)[k] == targets[k]@);
            }
        }
        (targets, rejections)
    }

    /// Makes the targets of `rows`. A row whose link makes no target is left
    /// out, and the rows after it are still read.
    pub fn parse_ollama_assets(rows: &Vec<OllamaAssetCsv>) -> (targets: Vec<Target>)
        ensures
            target_views(targets@) == row_targets(row_views(rows@)),
            targets.len() == accepted_rows(row_views(rows@)),
            targets.len() <= rows.len(),
            forall|k: int| 0 <= k < targets.len() ==> (#[trigger] targets[k])@.is_valid(),
    {
        let made = Self::adapt_rows(rows);
        made.0
    }

    /// Picks the targets that can be probed: those that name a host and a
    /// port other than 0.
    pub fn validate_targets(targets: &[Target]) -> (valid: Vec<&Target>)
        ensures
            borrowed_targets(valid@) == target_views(targets@).filter(
                |target: TargetView| target.is_valid(),
            ),
    {
        let ghost keep = |target: TargetView| target.is_valid();
        let mut valid: Vec<&Target> = Vec::new();
        let mut i: usize = 0;
        assert(target_views(targets@).take(0) =~= Seq::empty());
        assert(borrowed_targets(valid@) =~= Seq::empty());
        assert(Seq::<TargetView>::empty().filter(keep) =~= Seq::empty()) by {
            reveal(Seq::filter);
        }
        while i < targets.len()
            invariant
                i <= targets.len(),
                keep == |target: TargetView| target.is_valid(),
                borrowed_targets(valid@) == target_views(targets@).take(i as int).filter(keep),
            decreases targets.len() - i,
        {
            let ghost before = target_views(targets@).take(i as int);
            let ghost kept = borrowed_targets(valid@);
            proof {
                assert(target_views(targets@).take(i + 1) =~= before.push(targets@[i as int]@));
                before.lemma_filter_push(targets@[i as int]@, keep);
            }
            if targets[i].is_valid() {
                valid.push(&targets[i]);
                assert(borrowed_targets(valid@) =~= kept.push(targets@[i as int]@));
            }
            i += 1;
        }
        assert(target_views(targets@).take(i as int) =~= target_views(targets@));
        valid
    }
}

} // verus!
