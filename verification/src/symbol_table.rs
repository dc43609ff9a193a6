//! Identifiers and string literals, each stored once and known by a stable index.

use vstd::prelude::*;
use crate::lang::AsmValue;
use crate::text::str_eq;
use crate::tokenizer::SourceToken;

verus! {

/// A named entity: where it was declared or defined, its name, and its
/// value once it has one.
#[derive(Clone, Copy, Debug, PartialEq, Eq)]
pub struct Symbol<'a> {
    pub source: SourceToken<'a>,
    pub name: &'a str,
    pub value: Option<AsmValue>,
}

/// The index of a symbol in its table.
#[derive(Clone, Copy, Debug, Hash, PartialEq, Eq, Structural)]
pub struct SymbolID(pub usize);

/// The index of a string literal in the static pool.
#[derive(Clone, Copy, Debug, PartialEq, Eq, Structural)]
pub struct StaticID(pub usize);

/// An entry of the static pool.
#[derive(Debug)]
pub enum StaticValue {
    StringLiteral(String),
}

impl StaticValue {
    /// The characters of the literal.
    pub open spec fn text(&self) -> Seq<char> {
        match self {
            StaticValue::StringLiteral(string) => string@,
        }
    }

    /// The literal as a string.
    pub fn as_string(&self) -> (string: &String)
        ensures
            string@ == self.text(),
    {
        match self {
            StaticValue::StringLiteral(string) => string,
        }
    }
}

/// The symbols in the order of their declaration, and the static pool.
pub struct SymbolTable<'a> {
    symbols: Vec<Symbol<'a>>,
    statics: Vec<StaticValue>,
}

/// `earlier` is how `later` begins.
pub open spec fn is_prefix<T>(earlier: Seq<T>, later: Seq<T>) -> bool {
    earlier.len() <= later.len() && later.subrange(0, earlier.len() as int) == earlier
}

/// The table `after` has the symbols and the statics of `before`, each
/// under its index, and perhaps more.
pub open spec fn table_grown<'a>(before: SymbolTable<'a>, after: SymbolTable<'a>) -> bool {
    is_prefix(before.symbols(), after.symbols()) && is_prefix(before.statics(), after.statics())
}

/// A table has grown from itself, and growing is transitive.
pub proof fn lemma_table_grown<'a>(
    first: SymbolTable<'a>,
    second: SymbolTable<'a>,
    third: SymbolTable<'a>,
)
    ensures
        table_grown(first, first),
        table_grown(first, second) && table_grown(second, third) ==> table_grown(first, third),
{
    assert(first.symbols().subrange(0, first.symbols().len() as int) =~= first.symbols());
    assert(first.statics().subrange(0, first.statics().len() as int) =~= first.statics());
    if table_grown(first, second) && table_grown(second, third) {
        assert(third.symbols().subrange(0, first.symbols().len() as int) =~= second.symbols().subrange(
            0,
            first.symbols().len() as int,
        ));
        assert(third.statics().subrange(0, first.statics().len() as int) =~= second.statics().subrange(
            0,
            first.statics().len() as int,
        ));
    }
}

/// The position of the first symbol of `symbols` that is named `name`.
pub open spec fn position_of(symbols: Seq<Symbol<'_>>, name: Seq<char>) -> Option<int>
    decreases symbols.len(),
{
    if symbols.len() == 0 {
        None
    } else if symbols[0].name@ == name {
        Some(0)
    } else {
        match position_of(symbols.drop_first(), name) {
            Some(at) => Some(at + 1),
            None => None,
        }
    }
}

/// The position that is found is the first with the name, and where none
/// is found no symbol has the name.
pub proof fn lemma_position_of(symbols: Seq<Symbol<'_>>, name: Seq<char>)
    ensures
        match position_of(symbols, name) {
            Some(at) => 0 <= at < symbols.len() && symbols[at].name@ == name && forall|i: int|
                0 <= i < at ==> (#[trigger] symbols[i]).name@ != name,
            None => forall|i: int| 0 <= i < symbols.len() ==> (#[trigger] symbols[i]).name@ != name,
        },
    decreases symbols.len(),
{
    if symbols.len() > 0 && symbols[0].name@ != name {
        let rest = symbols.drop_first();
        lemma_position_of(rest, name);
        match position_of(rest, name) {
            Some(at) => {
                assert forall|i: int| 0 <= i < at + 1 implies (#[trigger] symbols[i]).name@ != name by {
                    if i > 0 {
                        assert(symbols[i] == rest[i - 1]);
                    }
                }
            },
            None => {
                assert forall|i: int| 0 <= i < symbols.len() implies (#[trigger] symbols[i]).name@
                    != name by {
                    if i > 0 {
                        assert(symbols[i] == rest[i - 1]);
                    }
                }
            },
        }
    }
}

impl<'a> SymbolTable<'a> {
    /// The symbols, in the order of their declaration.
    pub closed spec fn symbols(&self) -> Seq<Symbol<'a>> {
        self.symbols@
    }

    /// The texts of the static pool, in the order of their declaration.
    pub closed spec fn statics(&self) -> Seq<Seq<char>> {
        Seq::new(self.statics@.len(), |i: int| self.statics@[i].text())
    }

    /// No two symbols have the same name.
    pub open spec fn wf(&self) -> bool {
        forall|i: int, j: int|
            0 <= i < j < self.symbols().len() ==> (#[trigger] self.symbols()[i]).name@ != (
            #[trigger] self.symbols()[j]).name@
    }

    /// A table without symbols and without statics.
    pub fn new() -> (table: Self)
        ensures
            table.wf(),
            table.symbols() == Seq::<Symbol<'a>>::empty(),
            table.statics() == Seq::<Seq<char>>::empty(),
    {
        let table = Self { symbols: Vec::new(), statics: Vec::new() };
        assert(table.statics() =~= Seq::<Seq<char>>::empty());
        table
    }

    /// The number of symbols.
    pub fn symbol_count(&self) -> (n: usize)
        ensures
            n == self.symbols().len(),
    {
        self.symbols.len()
    }

    /// The number of entries of the static pool.
    pub fn static_count(&self) -> (n: usize)
        ensures
            n == self.statics().len(),
    {
        self.statics.len()
    }

    /// Adds an entry to the static pool and returns its index.
    pub fn declare_static(&mut self, value: StaticValue) -> (id: StaticID)
        ensures
            id.0 == old(self).statics().len(),
            final(self).statics() == old(self).statics().push(value.text()),
            final(self).symbols() == old(self).symbols(),
    {
        let id = self.statics.len();
        self.statics.push(value);
        assert(self.statics() =~= old(self).statics().push(value.text()));
        StaticID(id)
    }

    /// The entry of the static pool with this index.
    pub fn get_static(&self, id: StaticID) -> (value: &StaticValue)
        requires
            id.0 < self.statics().len(),
        ensures
            value.text() == self.statics()[id.0 as int],
    {
        &self.statics[id.0]
    }

    /// The entry of the static pool with this index, if there is one.
    pub fn find_static(&self, id: StaticID) -> (value: Option<&StaticValue>)
        ensures
            value is Some <==> id.0 < self.statics().len(),
            value is Some ==> value->0.text() == self.statics()[id.0 as int],
    {
        if id.0 < self.statics.len() {
            Some(&self.statics[id.0])
        } else {
            None
        }
    }

    /// Gives the symbol a value, or takes it away, and records where.
    pub fn define_symbol(
        &mut self,
        id: SymbolID,
        value: Option<AsmValue>,
        definition_source: SourceToken<'a>,
    )
        requires
            id.0 < old(self).symbols().len(),
        ensures
            final(self).symbols() == old(self).symbols().update(
                id.0 as int,
                Symbol { source: definition_source, name: old(self).symbols()[id.0 as int].name, value },
            ),
            final(self).statics() == old(self).statics(),
            old(self).wf() ==> final(self).wf(),
    {
        let name = self.symbols[id.0].name;
        self.symbols.set(id.0, Symbol { source: definition_source, name, value });
        assert(self.statics() =~= old(self).statics());
    }

    /// Declares the symbol under `name`, which becomes its name, and returns
    /// its index. If the name is declared already and has no value, that
    /// symbol's index is returned; if it has a value, the earlier symbol is
    /// returned as the error.
    pub fn declare_symbol(
        &mut self,
        name: &'a str,
        symbol: Symbol<'a>,
    ) -> (declared: Result<SymbolID, Symbol<'a>>)
        requires
            old(self).wf(),
        ensures
            final(self).wf(),
            final(self).statics() == old(self).statics(),
            match position_of(old(self).symbols(), name@) {
                Some(at) => {
                    &&& final(self).symbols() == old(self).symbols()
                    &&& if old(self).symbols()[at].value is Some {
                        declared is Err && declared->Err_0 == old(self).symbols()[at]
                    } else {
                        declared is Ok && declared->Ok_0.0 == at
                    }
                },
                None => {
                    &&& final(self).symbols() == old(self).symbols().push(
                        Symbol { source: symbol.source, name, value: symbol.value },
                    )
                    &&& declared is Ok
                    &&& declared->Ok_0.0 == old(self).symbols().len()
                },
            },
    {
        proof {
            lemma_position_of(self.symbols@, name@);
        }
        match self.get_symbol_id(name) {
            Some(id) => {
                let earlier = self.symbols[id.0];
                if earlier.value.is_some() {
                    Err(earlier)
                } else {
                    Ok(id)
                }
            },
            None => {
                let id = self.symbols.len();
                self.symbols.push(Symbol { source: symbol.source, name, value: symbol.value });
                assert(self.statics() =~= old(self).statics());
                Ok(SymbolID(id))
            },
        }
    }

    /// The index of the symbol with this name, if it is declared.
    pub fn get_symbol_id(&self, name: &str) -> (id: Option<SymbolID>)
        ensures
            match position_of(self.symbols(), name@) {
                Some(at) => id is Some && (id->0).0 == at,
                None => id is None,
            },
    {
        let mut at: usize = 0;
        proof {
            lemma_position_of(self.symbols@, name@);
        }
        while at < self.symbols.len()
            invariant
                at <= self.symbols@.len(),
                forall|i: int| 0 <= i < at ==> (#[trigger] self.symbols@[i]).name@ != name@,
            decreases self.symbols@.len() - at,
        {
            if str_eq(self.symbols[at].name, name) {
                proof {
                    lemma_position_of(self.symbols@, name@);
                }
                return Some(SymbolID(at));
            }
            at = at + 1;
        }
        None
    }

    /// Returns the symbol with the given id.
    pub fn get_symbol(&self, id: SymbolID) -> (symbol: Symbol<'a>)
        requires
            id.0 < self.symbols().len(),
        ensures
            symbol == self.symbols()[id.0 as int],
    {
        self.symbols[id.0]
    }

    /// The symbol with the given id, if the table has issued that id.
    pub fn find_symbol(&self, id: SymbolID) -> (symbol: Option<Symbol<'a>>)
        ensures
            symbol is Some <==> id.0 < self.symbols().len(),
            symbol is Some ==> symbol->0 == self.symbols()[id.0 as int],
    {
        if id.0 < self.symbols.len() {
            Some(self.symbols[id.0])
        } else {
            None
        }
    }
}

} // verus!
