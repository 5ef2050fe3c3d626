pub mod class;
pub mod flags;
pub mod parse_error;
pub mod parsing;
pub mod rr_type;
pub mod serializing;
pub mod ttl;
pub mod message_header;
pub mod domain_name;
pub mod rr_data;
pub mod resource_record;
pub mod question;
pub mod message;
pub mod cache;
pub mod resolver;
