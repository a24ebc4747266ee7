use vstd::prelude::*;

pub mod assets;
pub mod auth_flow;
pub mod client_ip;
pub mod completion;
pub mod codec;
pub mod cookies;
pub mod framing;
pub mod globs;
pub mod handlers;
pub mod http;
pub mod http_auth;
pub mod http_headers;
pub mod infer;
pub mod json;
pub mod json_text;
pub mod llama;
pub mod matching;
pub mod numbers;
pub mod oauth;
pub mod object;
pub mod path_literals;
pub mod stargazers;
pub mod strings;
pub mod templates;
pub mod text;
pub mod unzip;
pub mod uri;
pub mod usps;
pub mod xmljson;
pub mod yolo;
