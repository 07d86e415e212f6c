//! A diagnostic forwarding proxy for JSON-RPC over HTTP: the per-exchange
//! decisions, verified. Which direction of an exchange is dropped, how much
//! of it is logged under the suppression rules, where the request goes and
//! with which headers, and how each log entry reads.
pub mod chaos;
pub mod colors;
pub mod exchange;
pub mod forward;
pub mod number;
pub mod packet;
pub mod present;
pub mod rpc;
pub mod suppress;
pub mod text;

pub use chaos::{classify_draw, ChaosGate};
pub use colors::{color_treat, Colors};
pub use exchange::{override_modules, plan_entry, request_step, response_step, ProxyConfig, RequestStep, ResponseStep};
pub use forward::{rewrite_headers, destination_uri, display_json, get_hostport, parse_destination, parse_uri, remove_trailing_slashes};
pub use packet::{PacketType, SuppressType};
pub use present::render_log;
pub use rpc::{get_rpc_modules_override, is_rpc_modules_request, RpcError, RpcErrorResponse, RpcRequest, SnoopError};
pub use suppress::{parse_suppress, suppress_log, trim_json, SuppressRules};
