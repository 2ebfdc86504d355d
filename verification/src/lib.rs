//! Register-map generator core: ingests a spreadsheet-shaped description of a
//! hardware register map into a validated intermediate representation and
//! lowers it into IP-XACT XML, RegVue JSON and several template-rendered
//! text targets.

pub mod error;
pub mod ident;
pub mod numlit;
pub mod strutil;
pub mod ir;
pub mod table;
pub mod parser;
pub mod builder;
pub mod textesc;
pub mod ipxact;
pub mod regvue;
pub mod ctxjson;
pub mod templates;
pub mod export;
pub mod config;
pub mod regtree;
