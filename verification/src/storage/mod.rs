pub mod models;

pub use self::models::{
    AuthenticityIndicator, Confidence, DetectionDetails, EndpointResult, ModelDetails, ModelInfo,
    OllamaAssetCsv, OllamaService, Target, TestType, Timestamp,
};
