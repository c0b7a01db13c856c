//! Decoder for the stack map section that LLVM emits into ELF objects.
//!
//! The section holds two tables: one stack size entry per function, and one
//! stack map record per safepoint, each with the locations of the values that
//! are live at that point. [`StackMapParser`] validates the section header and
//! hands out forward-only iterators over both tables.
//!
//! The layout is the one of the "Stack Map Format" chapter of the LLVM
//! documentation. The section says nothing of the byte order of its fields:
//! [`StackMapParser::new`] reads them in the byte order of the target that
//! this crate is built for, [`StackMapParser::with_order`] in a given one.
//!
//! ```no_run
//! use ykstackmaps::StackMapParser;
//!
//! let file = elf::File::open_path("/bin/ls").unwrap();
//! // It's unlikely /bin/ls contains stackmaps, but you get the idea.
//! match StackMapParser::new(file) {
//!     Err(e) => println!("error: {:?}", e),
//!     Ok(p) => {
//!         let mut stackmaps = p.iter_stackmaps();
//!         while let Some(stmap_res) = stackmaps.next() {
//!             match stmap_res {
//!                 Ok(stmap) => println!("{:?}", stmap),
//!                 Err(e) => println!("error: {:?}", e),
//!             }
//!         }
//!     }
//! }
//! ```
//!
//! The modules `format` and `laws` say what the decoder decodes: `format`
//! gives the meaning of the bytes, `laws` what follows from it for every
//! section. `endian` and `section` hold what is taken on trust from the
//! `byteorder` and `elf` crates.

pub mod decode;
pub mod endian;
pub mod errors;
pub mod format;
pub mod laws;
pub mod parser;
pub mod records;
pub mod section;
pub mod util;

pub use crate::endian::Endian;
pub use crate::errors::SMParserError;
pub use crate::parser::{IterState, SMFuncIterator, SMRecIterator, StackMapParser};
pub use crate::records::{LocKind, LocOffset, SMFunc, SMLoc, SMRec};
