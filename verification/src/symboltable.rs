//! Symbol tables: what each name means in each scope of a program.
use vstd::prelude::*;

use crate::ast::SourceLocation;
use crate::error::{CodegenError, CodegenErrorType};
use crate::text::{chars_of, lemma_position_prefix, position, str_eq};

verus! {

#[derive(Debug, Clone, Copy, PartialEq, Eq, Structural)]
pub enum SymbolScope {
    Unknown,
    Local,
    GlobalExplicit,
    GlobalImplicit,
    Free,
    Cell,
}

/// What a name means in a scope.
#[derive(Debug, Clone, Copy, PartialEq, Eq, Structural)]
pub struct Symbol {
    pub scope: SymbolScope,
    /// Whether a scope nested in this class uses the name as a free variable.
    pub free_class: bool,
}

pub struct SymbolEntry {
    pub name: String,
    pub symbol: Symbol,
}

/// The symbols of a scope, in the order in which they were found, and the tables of the scopes
/// within it, in source order.
pub struct SymbolTable {
    pub symbols: Vec<SymbolEntry>,
    pub sub_tables: Vec<SymbolTable>,
}

/// Why no symbol table can be made of a program.
pub struct SymbolTableError {
    pub error: String,
    pub location: Option<SourceLocation>,
}

impl SymbolTableError {
    pub fn into_codegen_error(self, source_path: String) -> (r: CodegenError)
        ensures
            r.error == CodegenErrorType::SyntaxError(self.error),
            r.location == self.location,
            r.source_path == source_path,
    {
        CodegenError {
            error: CodegenErrorType::SyntaxError(self.error),
            location: self.location,
            source_path,
        }
    }
}

/// The names of a table's symbols.
pub open spec fn symbol_names(s: Seq<SymbolEntry>) -> Seq<Seq<char>> {
    s.map_values(|e: SymbolEntry| e.name@)
}

/// The symbol of a name in a table.
pub open spec fn found_symbol(t: SymbolTable, name: Seq<char>) -> Option<Symbol> {
    match position(symbol_names(t.symbols@), name) {
        Some(i) => Some(t.symbols@[i as int].symbol),
        None => None,
    }
}

impl SymbolTable {
    /// Looks a name up.
    pub fn lookup(&self, name: &str) -> (r: Option<Symbol>)
        ensures
            r == found_symbol(*self, name@),
    {
        let n: usize = self.symbols.len();
        let mut i: usize = 0;
        let ghost all = symbol_names(self.symbols@);
        assert(all.take(0) =~= Seq::empty());
        while i < n
            invariant
                i <= n,
                n == self.symbols@.len(),
                all == symbol_names(self.symbols@),
                position(all.take(i as int), name@) is None,
            decreases n - i,
        {
            assert(all.take(i + 1).drop_last() =~= all.take(i as int));
            assert(all.take(i + 1).last() == self.symbols@[i as int].name@);
            if str_eq(self.symbols[i].name.as_str(), name) {
                proof {
                    lemma_position_prefix(all, name@, i + 1);
                }
                return Some(self.symbols[i].symbol);
            }
            i += 1;
        }
        assert(all.take(n as int) =~= all);
        None
    }
}

/// Whether a name is private to the class it is used in: it starts with two underscores, does
/// not end with two, and has no dot.
pub open spec fn is_private(name: Seq<char>) -> bool {
    &&& name.len() >= 2
    &&& name[0] == '_'
    &&& name[1] == '_'
    &&& !(name[name.len() - 1] == '_' && name[name.len() - 2] == '_')
    &&& !name.contains('.')
}

/// A class name without a leading underscore.
pub open spec fn stripped(class: Seq<char>) -> Seq<char> {
    if class.len() > 0 && class[0] == '_' {
        class.drop_first()
    } else {
        class
    }
}

/// A name as the code of a class uses it.
pub open spec fn mangled(class: Option<Seq<char>>, name: Seq<char>) -> Seq<char> {
    match class {
        Some(class) => if is_private(name) {
            seq!['_'] + stripped(class) + name
        } else {
            name
        },
        None => name,
    }
}

/// The text of an optional string.
pub open spec fn text_of_option(s: Option<String>) -> Option<Seq<char>> {
    match s {
        Some(s) => Some(s@),
        None => None,
    }
}

/// Mangles a class-private name.
pub fn mangle_name(class_name: &Option<String>, name: &str) -> (r: String)
    ensures
        r@ == mangled(text_of_option(*class_name), name@),
{
    let class = match class_name {
        Some(class) => class,
        None => {
            return name.to_owned();
        },
    };
    let chars = chars_of(name);
    let n: usize = chars.len();
    if n < 2 || chars[0] != '_' || chars[1] != '_' {
        return name.to_owned();
    }
    if chars[n - 1] == '_' && chars[n - 2] == '_' {
        return name.to_owned();
    }
    let mut i: usize = 0;
    while i < n
        invariant
            i <= n,
            n == chars@.len(),
            chars@ == name@,
            forall|j: int| 0 <= j < i ==> chars@[j] != '.',
        decreases n - i,
    {
        if chars[i] == '.' {
            assert(name@.contains('.'));
            return name.to_owned();
        }
        i += 1;
    }
    let class_chars = chars_of(class.as_str());
    let from: usize = if class_chars.len() > 0 && class_chars[0] == '_' {
        1
    } else {
        0
    };
    let stem = crate::text::text_of(&class_chars, from, class_chars.len());
    let mut r: String = String::new();
    r.push('_');
    r.append(stem.as_str());
    r.append(name);
    proof {
        assert(Seq::<char>::empty().push('_') =~= seq!['_']);
        assert(class_chars@.subrange(from as int, class_chars@.len() as int) =~= stripped(class@));
    }
    r
}

} // verus!
