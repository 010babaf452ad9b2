mod ext;
pub mod node;
pub mod numfmt;
pub mod policy;
pub mod scheduler;
pub mod engine;
pub mod persist;
pub mod prompts;
pub mod session;

pub use engine::generate;
pub use node::{FitnessScores, MatrixNode, NodeType, SealState};
pub use policy::{evaluate_seal, SealPolicy};
pub use prompts::{
    build_full_prompt, extract_anthropic_content, extract_openai_content, get_custom_prompt,
    provider_kind, Message, Provider, ProxyParams,
};
pub use scheduler::AbyssalConfig;
pub use session::{
    build_session_tree, evaluate_fitness, origin_node, session_of, summarize, ChatRequest,
    ChatResponse, FitnessScore,
};
