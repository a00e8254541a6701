//! Streaming audio processing: composable sample transformers over interleaved
//! audio buffers.
//!
//! The crate holds the parts of the pipeline whose behaviour is fixed by order and
//! bookkeeping rather than by sample arithmetic:
//!
//! - [`ring`]: a fixed-capacity circular FIFO,
//! - [`lookahead`]: the in-flight window of a lookahead limiter, which decides
//!   between the fill phase and the steady phase sample by sample,
//! - [`node`]: the audio node capability, with its sequential per-sample meaning,
//! - [`chain`]: ordered composition of nodes,
//! - [`packets`]: what a stream reader does with each packet it pulls.
//!
//! The buffer, window, node and chain types are generic over the sample type.
pub mod chain;
pub mod lookahead;
pub mod node;
pub mod packets;
pub mod ring;

pub use chain::AudioNodeChain;
pub use lookahead::{Lookahead, Tap};
pub use node::AudioNode;
pub use packets::{read_step, PacketEvent, ReadStep};
pub use ring::RingBuffer;
