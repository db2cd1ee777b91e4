pub mod domain;
pub mod id;
pub mod iri;
pub mod rsa;
pub mod text;
