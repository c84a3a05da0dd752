//! The value-type model and the scoped symbol table.

use vstd::prelude::*;
use vstd::string::*;

verus! {

/// The base of a type.
#[derive(Debug, Clone, Copy, PartialEq, Eq, Structural)]
pub enum TypeBase {
    Int,
    Double,
    Char,
    Struct,
    Void,
}

/// A value type. `s` names the declaring struct by its position in the
/// global table, and is set exactly when `type_base` is `Struct`.
/// `n_elements` is -1 for a scalar and 0 or more for an array.
#[derive(Debug, Clone, Copy, PartialEq, Eq, Structural)]
pub struct Type {
    pub type_base: TypeBase,
    pub s: Option<usize>,
    pub n_elements: i32,
}

impl Type {
    /// A type that names no struct.
    pub fn new(type_base: TypeBase, n_elements: i32) -> (t: Type)
        ensures
            t == (Type { type_base, s: None, n_elements }),
    {
        Type { type_base, s: None, n_elements }
    }

    /// Whether the type is an array.
    pub open spec fn is_array(self) -> bool {
        self.n_elements >= 0
    }

    /// The same type with its array-ness removed.
    pub open spec fn element(self) -> Type {
        Type { n_elements: -1i32, ..self }
    }
}

/// What a symbol stands for.
#[derive(Debug, Clone, Copy, PartialEq, Eq, Structural)]
pub enum Class {
    Var,
    Func,
    ExtFunc,
    Struct,
}

/// Where a variable lives.
#[derive(Debug, Clone, Copy, PartialEq, Eq, Structural)]
pub enum Memory {
    Global,
    Arg,
    Local,
}

/// The value of a constant expression. A real constant is kept as its text.
#[derive(Debug, Clone, PartialEq)]
pub enum CtVal {
    Int(i64),
    Double(String),
    Char(char),
    Str(String),
}

/// The mathematical value of a constant.
pub ghost enum CtValView {
    Int(i64),
    Double(Seq<char>),
    Char(char),
    Str(Seq<char>),
}

impl CtVal {
    /// The mathematical value of the constant.
    pub open spec fn model(self) -> CtValView {
        match self {
            CtVal::Int(i) => CtValView::Int(i),
            CtVal::Double(text) => CtValView::Double(text@),
            CtVal::Char(c) => CtValView::Char(c),
            CtVal::Str(text) => CtValView::Str(text@),
        }
    }
}

/// What the analysis knows of an expression: its type, whether it designates
/// storage, whether it is a compile-time constant, and the constant's value.
#[derive(Debug, Clone, PartialEq)]
pub struct RetVal {
    pub ty: Type,
    pub is_lval: bool,
    pub is_ctval: bool,
    pub ct_val: Option<CtVal>,
}

/// The mathematical value of a `RetVal`.
pub ghost struct Attr {
    pub ty: Type,
    pub is_lval: bool,
    pub is_ctval: bool,
    pub ct_val: Option<CtValView>,
}

impl RetVal {
    /// The mathematical value of the bundle.
    pub open spec fn model(self) -> Attr {
        Attr {
            ty: self.ty,
            is_lval: self.is_lval,
            is_ctval: self.is_ctval,
            ct_val: match self.ct_val {
                Some(v) => Some(v.model()),
                None => None,
            },
        }
    }
}

/// A declared name. `args` is the positional parameter list of a function,
/// `members` the fields of a struct.
#[derive(Debug, PartialEq)]
pub struct Symbol {
    pub name: String,
    pub class: Class,
    pub memory: Option<Memory>,
    pub ty: Option<Type>,
    pub depth: usize,
    pub args: Option<SymbolTable>,
    pub members: Option<SymbolTable>,
}

/// An insertion-ordered list of symbols. Lookup is most-recent-first.
#[derive(Debug, PartialEq)]
pub struct SymbolTable {
    pub table: Vec<Symbol>,
}

/// The mathematical value of a symbol.
pub ghost struct SymbolView {
    pub name: Seq<char>,
    pub class: Class,
    pub memory: Option<Memory>,
    pub ty: Option<Type>,
    pub depth: int,
    pub args: Option<Seq<SymbolView>>,
    pub members: Option<Seq<SymbolView>>,
}

/// The position of the most recent symbol called `name`, if there is one.
pub open spec fn last_index_of(table: Seq<SymbolView>, name: Seq<char>) -> Option<int>
    decreases table.len(),
{
    if table.len() == 0 {
        None
    } else if table.last().name == name {
        Some(table.len() - 1)
    } else {
        last_index_of(table.drop_last(), name)
    }
}

/// The position of the oldest symbol called `name`, if there is one.
pub open spec fn first_index_of(table: Seq<SymbolView>, name: Seq<char>) -> Option<int>
    decreases table.len(),
{
    if table.len() == 0 {
        None
    } else {
        match first_index_of(table.drop_last(), name) {
            Some(i) => Some(i),
            None => if table.last().name == name {
                Some(table.len() - 1)
            } else {
                None
            },
        }
    }
}

/// The table after `symbol` has joined the members of the struct at `si`.
pub open spec fn with_member(table: Seq<SymbolView>, si: int, symbol: SymbolView) -> Seq<
    SymbolView,
> {
    table.update(
        si,
        SymbolView { members: Some(table[si].members->0.push(symbol)), ..table[si] },
    )
}

/// The table after `symbol` has joined the parameters of the function at `fi`.
pub open spec fn with_arg(table: Seq<SymbolView>, fi: int, symbol: SymbolView) -> Seq<SymbolView> {
    table.update(fi, SymbolView { args: Some(table[fi].args->0.push(symbol)), ..table[fi] })
}

/// The table after the struct at `si` has lost its members from position
/// `len` on.
pub open spec fn without_members(table: Seq<SymbolView>, si: int, len: int) -> Seq<SymbolView> {
    table.update(
        si,
        SymbolView { members: Some(table[si].members->0.take(len)), ..table[si] },
    )
}

/// Whether `a` is the beginning of `b`.
pub open spec fn is_prefix(a: Seq<SymbolView>, b: Seq<SymbolView>) -> bool {
    a.len() <= b.len() && b.take(a.len() as int) == a
}

/// The beginning of a table's beginning is a beginning of the table.
pub proof fn lemma_prefix_chain(a: Seq<SymbolView>, b: Seq<SymbolView>, c: Seq<SymbolView>)
    requires
        is_prefix(a, b),
        is_prefix(b, c),
    ensures
        is_prefix(a, c),
{
    assert(c.take(a.len() as int) =~= b.take(a.len() as int));
}

/// Whether the struct at `si` can take a member.
pub open spec fn has_members(table: Seq<SymbolView>, si: int) -> bool {
    0 <= si < table.len() && table[si].members is Some
}

/// Whether the function at `fi` can take a parameter.
pub open spec fn has_args(table: Seq<SymbolView>, fi: int) -> bool {
    0 <= fi < table.len() && table[fi].args is Some
}

/// `last_index_of` finds a symbol exactly when one has the name, and then
/// the one behind which no other has it.
pub proof fn lemma_last_index_of(table: Seq<SymbolView>, name: Seq<char>)
    ensures
        match last_index_of(table, name) {
            Some(i) => 0 <= i < table.len() && table[i].name == name && forall|j: int|
                i < j < table.len() ==> table[j].name != name,
            None => forall|j: int| 0 <= j < table.len() ==> table[j].name != name,
        },
    decreases table.len(),
{
    if table.len() > 0 && table.last().name != name {
        let rest = table.drop_last();
        lemma_last_index_of(rest, name);
        assert(forall|j: int| 0 <= j < rest.len() ==> rest[j] == table[j]);
    }
}

/// `first_index_of` finds a symbol exactly when one has the name, and then
/// the one before which no other has it.
pub proof fn lemma_first_index_of(table: Seq<SymbolView>, name: Seq<char>)
    ensures
        match first_index_of(table, name) {
            Some(i) => 0 <= i < table.len() && table[i].name == name && forall|j: int|
                0 <= j < i ==> table[j].name != name,
            None => forall|j: int| 0 <= j < table.len() ==> table[j].name != name,
        },
    decreases table.len(),
{
    if table.len() > 0 {
        let rest = table.drop_last();
        lemma_first_index_of(rest, name);
        assert(forall|j: int| 0 <= j < rest.len() ==> rest[j] == table[j]);
    }
}

impl Symbol {
    /// The value of the symbol, by recursion over its nested tables.
    pub open spec fn deep(self) -> SymbolView
        decreases self,
    {
        SymbolView {
            name: self.name@,
            class: self.class,
            memory: self.memory,
            ty: self.ty,
            depth: self.depth as int,
            args: match self.args {
                Some(t) => Some(t.deep()),
                None => None,
            },
            members: match self.members {
                Some(t) => Some(t.deep()),
                None => None,
            },
        }
    }

    /// The mathematical value of the symbol.
    #[verifier::opaque]
    pub open spec fn model(self) -> SymbolView {
        self.deep()
    }

    /// A symbol made of the given parts.
    pub fn new(
        name: String,
        class: Class,
        memory: Option<Memory>,
        ty: Option<Type>,
        depth: usize,
        args: Option<SymbolTable>,
        members: Option<SymbolTable>,
    ) -> (symbol: Symbol)
        ensures
            symbol == (Symbol { name, class, memory, ty, depth, args, members }),
            symbol.model() == (SymbolView {
                name: name@,
                class,
                memory,
                ty,
                depth: depth as int,
                args: match args {
                    Some(t) => Some(t.model()),
                    None => None,
                },
                members: match members {
                    Some(t) => Some(t.model()),
                    None => None,
                },
            }),
    {
        proof {
            reveal(Symbol::model);
            reveal(SymbolTable::model);
        }
        Symbol { name, class, memory, ty, depth, args, members }
    }
}

impl SymbolTable {
    /// The value of the table, by recursion over its symbols.
    pub open spec fn deep(self) -> Seq<SymbolView>
        decreases self,
    {
        Seq::new(
            self.table@.len(),
            |i: int|
                if 0 <= i < self.table@.len() {
                    self.table@[i].deep()
                } else {
                    arbitrary()
                },
        )
    }

    /// The mathematical value of the table: its symbols' values, oldest first.
    #[verifier::opaque]
    pub open spec fn model(self) -> Seq<SymbolView> {
        self.deep()
    }

    /// The table's value has one entry for each of its symbols: that
    /// symbol's value.
    pub proof fn lemma_model(self)
        ensures
            self.model().len() == self.table@.len(),
            forall|i: int| 0 <= i < self.table@.len() ==> self.model()[i] == self.table@[i].model(),
    {
        reveal(Symbol::model);
        reveal(SymbolTable::model);
    }

    /// An empty table.
    pub fn new() -> (t: SymbolTable)
        ensures
            t.table@ == Seq::<Symbol>::empty(),
            t.model() == Seq::<SymbolView>::empty(),
    {
        proof {
            reveal(Symbol::model);
            reveal(SymbolTable::model);
        }
        let t = SymbolTable { table: Vec::new() };
        assert(t.model() =~= Seq::<SymbolView>::empty());
        t
    }

    /// The number of symbols.
    pub fn len(&self) -> (n: usize)
        ensures
            n == self.table@.len(),
            n == self.model().len(),
    {
        proof {
            reveal(Symbol::model);
            reveal(SymbolTable::model);
        }
        self.table.len()
    }

    /// Appends `symbol` and hands out the appended record.
    pub fn add_symbol(&mut self, symbol: Symbol) -> (r: &mut Symbol)
        ensures
            *r == symbol,
            final(self).table@ == old(self).table@.push(*final(r)),
    {
        proof {
            reveal(Symbol::model);
            reveal(SymbolTable::model);
        }
        self.table.push(symbol);
        let n = self.table.len();
        &mut self.table[n - 1]
    }

    /// Appends `symbol`.
    pub fn push(&mut self, symbol: Symbol)
        ensures
            final(self).table@ == old(self).table@.push(symbol),
            final(self).model() == old(self).model().push(symbol.model()),
    {
        proof {
            reveal(Symbol::model);
            reveal(SymbolTable::model);
        }
        self.table.push(symbol);
        assert(self.model() =~= old(self).model().push(symbol.model()));
    }

    /// Drops every symbol from position `len` on; a shorter table is left as it is.
    pub fn truncate(&mut self, len: usize)
        ensures
            len <= old(self).model().len() ==> final(self).table@ == old(self).table@.take(
                len as int,
            ) && final(self).model() == old(self).model().take(len as int),
            len > old(self).model().len() ==> *final(self) == *old(self),
    {
        proof {
            reveal(Symbol::model);
            reveal(SymbolTable::model);
        }
        if len <= self.table.len() {
            self.table.truncate(len);
            assert(self.model() =~= old(self).model().take(len as int));
        }
    }

    /// The position of the most recent symbol called `name`.
    pub fn find_last_index(&self, name: &str) -> (r: Option<usize>)
        ensures
            match r {
                Some(k) => k < self.table@.len() && k < self.model().len() && last_index_of(
                    self.model(),
                    name@,
                ) == Some(k as int),
                None => last_index_of(self.model(), name@) is None,
            },
    {
        proof {
            reveal(Symbol::model);
            reveal(SymbolTable::model);
        }
        let wanted = String::from_str(name);
        let mut i: usize = self.table.len();
        proof {
            assert(self.model().take(i as int) =~= self.model());
        }
        while i > 0
            invariant
                i <= self.table@.len(),
                wanted@ == name@,
                last_index_of(self.model(), name@) == last_index_of(
                    self.model().take(i as int),
                    name@,
                ),
            decreases i,
        {
            proof {
                self.lemma_model();
            }
            let ghost prefix = self.model().take(i as int);
            assert(prefix.last() == self.table@[i - 1].model());
            assert(prefix.drop_last() =~= self.model().take(i - 1));
            proof {
                reveal(Symbol::model);
            }
            if self.table[i - 1].name == wanted {
                return Some(i - 1);
            }
            i = i - 1;
        }
        None
    }

    /// The most recent symbol called `name`: an inner declaration hides an
    /// outer one of the same name.
    pub fn find_symbol(&self, name: &str) -> (r: Option<&Symbol>)
        ensures
            match last_index_of(self.model(), name@) {
                Some(i) => 0 <= i < self.table@.len() && r == Some(&self.table@[i]),
                None => r is None,
            },
    {
        proof {
            reveal(Symbol::model);
            reveal(SymbolTable::model);
        }
        match self.find_last_index(name) {
            Some(i) => Some(&self.table[i]),
            None => None,
        }
    }

    /// The most recent symbol called `name`, to be changed in place.
    pub fn find_symbol_mut(&mut self, name: &str) -> (r: Option<&mut Symbol>)
        ensures
            match last_index_of(old(self).model(), name@) {
                Some(i) => 0 <= i < old(self).table@.len() && r is Some && *r->0 == old(
                    self,
                ).table@[i] && final(self).table@ == old(self).table@.update(i, *final(r->0)),
                None => r is None && *final(self) == *old(self),
            },
    {
        proof {
            reveal(Symbol::model);
            reveal(SymbolTable::model);
        }
        match self.find_last_index(name) {
            Some(i) => Some(&mut self.table[i]),
            None => None,
        }
    }

    /// The class of the symbol at `i`.
    pub fn class_of(&self, i: usize) -> (r: Class)
        requires
            i < self.model().len(),
        ensures
            r == self.model()[i as int].class,
    {
        proof {
            reveal(Symbol::model);
            reveal(SymbolTable::model);
        }
        self.table[i].class
    }

    /// The type of the symbol at `i`.
    pub fn type_of(&self, i: usize) -> (r: Option<Type>)
        requires
            i < self.model().len(),
        ensures
            r == self.model()[i as int].ty,
    {
        proof {
            reveal(Symbol::model);
            reveal(SymbolTable::model);
        }
        self.table[i].ty
    }

    /// The depth at which the symbol at `i` was declared.
    pub fn depth_of(&self, i: usize) -> (r: usize)
        requires
            i < self.model().len(),
        ensures
            r == self.model()[i as int].depth,
    {
        proof {
            reveal(Symbol::model);
            reveal(SymbolTable::model);
        }
        self.table[i].depth
    }

    /// The parameters of the symbol at `i`, if it has a parameter list.
    pub fn args_of(&self, i: usize) -> (r: Option<&SymbolTable>)
        requires
            i < self.model().len(),
        ensures
            match r {
                Some(t) => self.model()[i as int].args == Some(t.model()),
                None => self.model()[i as int].args is None,
            },
    {
        proof {
            reveal(Symbol::model);
            reveal(SymbolTable::model);
        }
        match &self.table[i].args {
            Some(t) => Some(t),
            None => None,
        }
    }

    /// The members of the symbol at `i`, if it has a member list.
    pub fn members_of(&self, i: usize) -> (r: Option<&SymbolTable>)
        requires
            i < self.model().len(),
        ensures
            match r {
                Some(t) => self.model()[i as int].members == Some(t.model()),
                None => self.model()[i as int].members is None,
            },
    {
        proof {
            reveal(Symbol::model);
            reveal(SymbolTable::model);
        }
        match &self.table[i].members {
            Some(t) => Some(t),
            None => None,
        }
    }

    /// Appends `symbol` to the members of the struct at `si`.
    pub fn add_member(&mut self, si: usize, symbol: Symbol)
        requires
            has_members(old(self).model(), si as int),
        ensures
            final(self).model() == with_member(old(self).model(), si as int, symbol.model()),
    {
        proof {
            reveal(Symbol::model);
            reveal(SymbolTable::model);
        }
        match &mut self.table[si].members {
            Some(t) => {
                t.push(symbol);
            },
            None => {},
        }
        assert(self.table@.len() == old(self).table@.len());
        assert(forall|j: int|
            0 <= j < self.table@.len() && j != si ==> self.table@[j] == old(self).table@[j]);
        assert(self.model() =~= with_member(old(self).model(), si as int, symbol.model()));
    }

    /// Appends `symbol` to the parameters of the function at `fi`.
    pub fn add_arg(&mut self, fi: usize, symbol: Symbol)
        requires
            has_args(old(self).model(), fi as int),
        ensures
            final(self).model() == with_arg(old(self).model(), fi as int, symbol.model()),
    {
        proof {
            reveal(Symbol::model);
            reveal(SymbolTable::model);
        }
        match &mut self.table[fi].args {
            Some(t) => {
                t.push(symbol);
            },
            None => {},
        }
        assert(self.table@.len() == old(self).table@.len());
        assert(forall|j: int|
            0 <= j < self.table@.len() && j != fi ==> self.table@[j] == old(self).table@[j]);
        assert(self.model() =~= with_arg(old(self).model(), fi as int, symbol.model()));
    }

    /// The number of members of the symbol at `si`, if it can have any.
    pub fn member_count(&self, si: usize) -> (r: Option<usize>)
        ensures
            match r {
                Some(n) => has_members(self.model(), si as int) && n
                    == self.model()[si as int].members->0.len(),
                None => !has_members(self.model(), si as int),
            },
    {
        proof {
            reveal(Symbol::model);
            reveal(SymbolTable::model);
        }
        if si < self.table.len() {
            match &self.table[si].members {
                Some(t) => Some(t.len()),
                None => None,
            }
        } else {
            None
        }
    }

    /// Whether the symbol at `fi` can take a parameter.
    pub fn takes_args(&self, fi: usize) -> (r: bool)
        ensures
            r == has_args(self.model(), fi as int),
    {
        proof {
            reveal(Symbol::model);
            reveal(SymbolTable::model);
        }
        if fi < self.table.len() {
            self.table[fi].args.is_some()
        } else {
            false
        }
    }

    /// Drops the members of the struct at `si` from position `len` on.
    pub fn truncate_members(&mut self, si: usize, len: usize)
        requires
            has_members(old(self).model(), si as int),
            len <= old(self).model()[si as int].members->0.len(),
        ensures
            final(self).model() == without_members(old(self).model(), si as int, len as int),
    {
        proof {
            reveal(Symbol::model);
            reveal(SymbolTable::model);
        }
        match &mut self.table[si].members {
            Some(t) => {
                t.truncate(len);
            },
            None => {},
        }
        assert(self.table@.len() == old(self).table@.len());
        assert(forall|j: int|
            0 <= j < self.table@.len() && j != si ==> self.table@[j] == old(self).table@[j]);
        assert(self.model() =~= without_members(old(self).model(), si as int, len as int));
    }

    /// Whether the struct at `si` has a member called `name`.
    pub fn has_member_named(&self, si: usize, name: &str) -> (r: bool)
        requires
            has_members(self.model(), si as int),
        ensures
            r == (last_index_of(self.model()[si as int].members->0, name@) is Some),
    {
        proof {
            reveal(Symbol::model);
            reveal(SymbolTable::model);
        }
        match &self.table[si].members {
            Some(t) => t.find_last_index(name).is_some(),
            None => false,
        }
    }

    /// The position of the oldest symbol called `name`.
    pub fn find_symbol_index(&self, name: &str) -> (r: Option<usize>)
        ensures
            match r {
                Some(k) => k < self.table@.len() && k < self.model().len() && first_index_of(
                    self.model(),
                    name@,
                ) == Some(k as int),
                None => first_index_of(self.model(), name@) is None,
            },
    {
        proof {
            reveal(Symbol::model);
            reveal(SymbolTable::model);
        }
        let wanted = String::from_str(name);
        let n = self.table.len();
        let mut i: usize = 0;
        while i < n
            invariant
                i <= n,
                n == self.table@.len(),
                wanted@ == name@,
                forall|j: int| 0 <= j < i ==> self.model()[j].name != name@,
            decreases n - i,
        {
            proof {
                self.lemma_model();
                reveal(Symbol::model);
            }
            if self.table[i].name == wanted {
                proof {
                    assert(self.model()[i as int].name == name@);
                    lemma_first_index_of(self.model(), name@);
                    match first_index_of(self.model(), name@) {
                        Some(k) => {
                            assert(k <= i) by {
                                if k > i {
                                    assert(self.model()[i as int].name != name@);
                                }
                            }
                            assert(k >= i) by {
                                if k < i {
                                    assert(self.model()[k].name != name@);
                                }
                            }
                        },
                        None => {},
                    }
                }
                return Some(i);
            }
            i = i + 1;
        }
        proof {
            lemma_first_index_of(self.model(), name@);
        }
        None
    }

    /// Drops everything declared after the oldest symbol that has the name of
    /// `target_symbol`; without such a symbol the table stays as it is.
    pub fn delete_symbol_after(&mut self, target_symbol: &Symbol)
        ensures
            match first_index_of(old(self).model(), target_symbol.name@) {
                Some(i) => 0 <= i < old(self).table@.len() && final(self).table@ == old(
                    self,
                ).table@.take(i + 1) && final(self).model() == old(self).model().take(i + 1),
                None => *final(self) == *old(self),
            },
    {
        proof {
            reveal(Symbol::model);
            reveal(SymbolTable::model);
        }
        let n = self.table.len();
        match self.find_symbol_index(target_symbol.name.as_str()) {
            Some(i) => {
                assert(i < n);
                self.truncate(i + 1);
            },
            None => {},
        }
    }
}

} // verus!
