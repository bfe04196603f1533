//! Symbols: short validated textual identifiers used as attribute-type keys
//! and entity aliases.
use vstd::prelude::*;

verus! {

use vstd::pervasive::arbitrary;
use vstd::string::StrSliceExecFns;
use vstd::string::StringExecFns;
use crate::values::{BootstrapSymbol, ValueType};

/// A character is allowed in a symbol name when it is printable ASCII and
/// neither a backslash nor a double quote.
pub open spec fn is_symbol_char(c: char) -> bool {
    &&& 0x20 <= c as u32 <= 0x7e
    &&& c != '\\'
    &&& c != '"'
}

/// A symbol name is one to sixty allowed characters.
pub open spec fn is_valid_symbol_name(s: Seq<char>) -> bool {
    &&& 1 <= s.len() <= 60
    &&& forall|i: int| 0 <= i < s.len() ==> is_symbol_char(#[trigger] s[i])
}

/// A validated symbol. Every value of this type holds a valid symbol name.
#[derive(PartialEq, Eq, Hash, Debug)]
pub struct Symbol(pub(crate) String);

impl View for Symbol {
    type V = Seq<char>;

    closed spec fn view(&self) -> Seq<char> {
        self.0@
    }
}

impl Clone for Symbol {
    fn clone(&self) -> (r: Self)
        ensures
            r@ == self@,
    {
        Symbol(self.0.clone())
    }
}

impl Symbol {
    /// The symbol's name as a string slice.
    pub fn as_str(&self) -> (r: &str)
        ensures
            r@ == self@,
    {
        self.0.as_str()
    }

    /// The symbol's name as an owned string.
    pub fn into_string(self) -> (r: String)
        ensures
            r@ == self@,
    {
        self.0
    }

    /// Whether the two symbols carry the same name.
    pub fn same_as(&self, other: &Symbol) -> (r: bool)
        ensures
            r == (self@ == other@),
    {
        self.0 == other.0
    }

    /// Checks every character of `value` against `is_symbol_char` and the
    /// length bounds.
    pub fn is_valid_name(value: &str) -> (r: bool)
        ensures
            r == is_valid_symbol_name(value@),
    {
        let len: usize = value.unicode_len();
        if len < 1 || len > 60 {
            return false;
        }
        let mut i: usize = 0;
        while i < len
            invariant
                i <= len,
                len == value@.len(),
                1 <= len <= 60,
                forall|j: int| 0 <= j < i ==> is_symbol_char(#[trigger] value@[j]),
            decreases len - i,
    {
            let c = value.get_char(i);
            let u: u32 = c as u32;
            if u < 0x20 || u > 0x7e || c == '\\' || c == '"' {
                return false;
            }
            i = i + 1;
        }
        true
    }

    /// The symbol for a bootstrap name, together with what it names.
    pub fn from_bootstrap(value: BootstrapSymbol) -> (r: Symbol)
        ensures
            r@ == bootstrap_symbol_name(value),
    {
        match value {
            BootstrapSymbol::EntityId => Symbol(String::from_str("@id")),
            BootstrapSymbol::SymbolName => Symbol(String::from_str("@symbolName")),
            BootstrapSymbol::ValueType => Symbol(String::from_str("@valueType")),
            BootstrapSymbol::ValueTypeEnum(value_type) => Symbol::from_value_type(value_type),
        }
    }

    /// The symbol naming a value type's canonical entity.
    pub fn from_value_type(value_type: ValueType) -> (r: Symbol)
        ensures
            r@ == value_type_symbol_name(value_type),
    {
        match value_type {
            ValueType::Text => Symbol(String::from_str("@valueType/text")),
            ValueType::EntityReference => Symbol(String::from_str("@valueType/entityRef")),
            ValueType::Bytes => Symbol(String::from_str("@valueType/bytes")),
        }
    }
}

/// Wrapping a string in a symbol keeps its name.
pub(crate) proof fn lemma_symbol_wrap_view(v: String)
    ensures
        (Symbol(v))@ == v@,
{
}

/// The name of each bootstrap symbol.
pub open spec fn bootstrap_symbol_name(symbol: BootstrapSymbol) -> Seq<char> {
    match symbol {
        BootstrapSymbol::EntityId => "@id"@,
        BootstrapSymbol::SymbolName => "@symbolName"@,
        BootstrapSymbol::ValueType => "@valueType"@,
        BootstrapSymbol::ValueTypeEnum(value_type) => value_type_symbol_name(value_type),
    }
}

/// The name of the entity that stands for each value type.
pub open spec fn value_type_symbol_name(value_type: ValueType) -> Seq<char> {
    match value_type {
        ValueType::Text => "@valueType/text"@,
        ValueType::EntityReference => "@valueType/entityRef"@,
        ValueType::Bytes => "@valueType/bytes"@,
    }
}

impl From<BootstrapSymbol> for Symbol {
    fn from(value: BootstrapSymbol) -> Self {
        Symbol::from_bootstrap(value)
    }
}

impl vstd::std_specs::convert::FromSpecImpl<BootstrapSymbol> for Symbol {
    open spec fn obeys_from_spec() -> bool {
        false
    }

    open spec fn from_spec(v: BootstrapSymbol) -> Symbol {
        arbitrary()
    }
}

impl From<ValueType> for Symbol {
    fn from(value: ValueType) -> Self {
        Symbol::from_value_type(value)
    }
}

impl vstd::std_specs::convert::FromSpecImpl<ValueType> for Symbol {
    open spec fn obeys_from_spec() -> bool {
        false
    }

    open spec fn from_spec(v: ValueType) -> Symbol {
        arbitrary()
    }
}

impl From<Symbol> for String {
    fn from(value: Symbol) -> Self {
        let Symbol(inner) = value;
        inner
    }
}

impl vstd::std_specs::convert::FromSpecImpl<Symbol> for String {
    open spec fn obeys_from_spec() -> bool {
        false
    }

    open spec fn from_spec(v: Symbol) -> String {
        arbitrary()
    }
}

} // verus!
