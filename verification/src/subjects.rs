//! Subject programs: small pieces of the inspected language whose values,
//! layouts and names the decoder, the resolver and the evaluator are exercised
//! on.  Each module is one program; the descriptors that the tests build
//! describe the types declared here.

pub mod dynsized;
pub mod finish;
pub mod fnfield;
pub mod generics;
pub mod methods;
pub mod modules;
pub mod onetwoeight;
pub mod simple;
