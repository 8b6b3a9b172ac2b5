//! A tag-index generator for Ruby sources: walks an abstract syntax tree,
//! classifies definition-bearing constructs (classes, modules, methods,
//! constants, aliases, accessor-generating calls), and renders the collected
//! definitions as tab-separated tag-file records sorted by name.

use vstd::prelude::*;

pub mod ast;
pub mod classify;
pub mod defs;
pub mod excerpt;
pub mod format;
pub mod order;
pub mod traverse;

verus! {

/// The kinds of definitions the index records.
#[derive(Debug, Clone, Copy, PartialEq, Eq, Structural)]
pub enum Kind {
    Class,
    Module,
    Method,
    SingletonMethod,
    Constant,
    Alias,
}

impl Kind {
    /// The one-character tag used for this kind at serialization time.
    pub open spec fn char_spec(self) -> u8 {
        match self {
            Kind::Class => 99,  // 'c'
            Kind::Module => 109,  // 'm'
            Kind::Method => 102,  // 'f'
            Kind::SingletonMethod => 70,  // 'F'
            Kind::Constant => 67,  // 'C'
            Kind::Alias => 97,  // 'a'
        }
    }

    /// Display character of the kind, used only by the output formatter.
    pub fn as_char(self) -> (r: u8)
        ensures
            r == self.char_spec(),
    {
        match self {
            Kind::Class => 99,
            Kind::Module => 109,
            Kind::Method => 102,
            Kind::SingletonMethod => 70,
            Kind::Constant => 67,
            Kind::Alias => 97,
        }
    }
}

/// Indexes one parsed source file: walks the tree rooted at `root`, sorts
/// the collected definitions by name, and renders the tag records, returning
/// them together with the recoverable conditions met during traversal.
pub fn index_source(root: &ast::Node, file: &Vec<u8>, src: &Vec<u8>) -> (r: (
    Vec<u8>,
    Vec<defs::Warning>,
))
    ensures
        r.0@ == format::render_spec(order::sort_spec(traverse::defs_of(*root, file@, src@))),
        r.1@ == traverse::warns_of(*root, src@),
{
    let (defs, warns) = traverse::collect_tags(root, file, src);
    let out = format::format_index(defs);
    (out, warns)
}

} // verus!
