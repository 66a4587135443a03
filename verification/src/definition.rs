//! Go-to-definition support: symbol definitions, scopes, the resolver, and
//! the text scanning that finds the word under the cursor and the names
//! declared on a line.

use vstd::prelude::*;
use crate::lsp_types::{Location, LocationLink, Position, TextRange, LineIndex};
use crate::state::{Document, doc_line};
use crate::text::{ident_char, first_non_ident, seq_starts_with, trim, str_chars, string_from_chars, is_identifier_char, slice_chars, starts_with, trim_chars, find_non_ident, str_equal};

verus! {

/// The kind of a symbol.
#[derive(Debug, Clone, Copy, PartialEq, Eq, Structural, Hash)]
pub enum SymbolKind {
    Variable,
    Function,
    Type,
    Trait,
    Effect,
    Module,
    Field,
    Variant,
    TypeParameter,
    Lifetime,
    Constant,
    Static,
    Macro,
}

/// A symbol definition in a document.
#[derive(Debug, Clone)]
pub struct SymbolDefinition {
    /// The symbol's name.
    pub name: String,
    /// Its kind.
    pub kind: SymbolKind,
    /// The URI of the document that defines it.
    pub uri: String,
    /// The whole definition.
    pub full_range: TextRange,
    /// Just the name.
    pub name_range: TextRange,
    /// Documentation, if any.
    pub documentation: Option<String>,
    /// The enclosing symbol, if nested.
    pub parent: Option<String>,
    /// Whether it is public.
    pub is_public: bool,
}

impl SymbolDefinition {
    /// Creates a private, undocumented, top-level definition.
    pub fn new(
        name: String,
        kind: SymbolKind,
        uri: String,
        full_range: TextRange,
        name_range: TextRange,
    ) -> (d: Self)
        ensures
            d.name == name,
            d.kind == kind,
            d.uri == uri,
            d.full_range == full_range,
            d.name_range == name_range,
            d.documentation is None,
            d.parent is None,
            !d.is_public,
    {
        Self {
            name,
            kind,
            uri,
            full_range,
            name_range,
            documentation: None,
            parent: None,
            is_public: false,
        }
    }

    /// Sets the documentation.
    pub fn with_documentation(self, doc: String) -> (d: Self)
        ensures
            d == (SymbolDefinition { documentation: Some(doc), ..self }),
    {
        SymbolDefinition { documentation: Some(doc), ..self }
    }

    /// Sets the enclosing symbol.
    pub fn with_parent(self, parent: String) -> (d: Self)
        ensures
            d == (SymbolDefinition { parent: Some(parent), ..self }),
    {
        SymbolDefinition { parent: Some(parent), ..self }
    }

    /// Marks the definition public.
    pub fn public(self) -> (d: Self)
        ensures
            d == (SymbolDefinition { is_public: true, ..self }),
    {
        SymbolDefinition { is_public: true, ..self }
    }

    /// The location of the symbol's name.
    pub fn to_location(&self) -> (l: Location)
        ensures
            l.uri == self.uri,
            l.range == self.name_range,
    {
        Location::new(self.uri.clone(), self.name_range)
    }

    /// A link to the whole definition, selecting its name.
    pub fn to_location_link(&self, origin_range: Option<TextRange>) -> (l: LocationLink)
        ensures
            l.origin_selection_range == origin_range,
            l.target_uri == self.uri,
            l.target_range == self.full_range,
            l.target_selection_range == self.name_range,
    {
        let link = LocationLink::new(self.uri.clone(), self.full_range, self.name_range);
        match origin_range {
            Some(origin) => link.with_origin(origin),
            None => link,
        }
    }
}

/// A reference to a symbol.
#[derive(Debug, Clone)]
pub struct SymbolReference {
    /// The document.
    pub uri: String,
    /// Where the reference is.
    pub range: TextRange,
    /// Whether it writes the symbol.
    pub is_write: bool,
    /// Whether it is the definition itself.
    pub is_definition: bool,
}

impl SymbolReference {
    /// A read reference.
    pub fn read(uri: String, range: TextRange) -> (r: Self)
        ensures
            r.uri == uri,
            r.range == range,
            !r.is_write,
            !r.is_definition,
    {
        Self { uri, range, is_write: false, is_definition: false }
    }

    /// A write reference.
    pub fn write(uri: String, range: TextRange) -> (r: Self)
        ensures
            r.uri == uri,
            r.range == range,
            r.is_write,
            !r.is_definition,
    {
        Self { uri, range, is_write: true, is_definition: false }
    }

    /// The definition itself (also a write).
    pub fn definition(uri: String, range: TextRange) -> (r: Self)
        ensures
            r.uri == uri,
            r.range == range,
            r.is_write,
            r.is_definition,
    {
        Self { uri, range, is_write: true, is_definition: true }
    }
}

// ============================================================================
// Name tables
// ============================================================================

/// Definitions keyed by name; a later definition replaces an earlier one of
/// the same name.
#[derive(Debug, Clone)]
pub struct SymbolTable {
    entries: Vec<SymbolDefinition>,
}

impl SymbolTable {
    /// The definitions in insertion order.
    pub closed spec fn entries(&self) -> Seq<SymbolDefinition> {
        self.entries@
    }

    /// No two entries share a name.
    pub closed spec fn wf(&self) -> bool {
        forall|i: int, j: int|
            0 <= i < j < self.entries@.len() ==> #[trigger] self.entries@[i].name@
                != #[trigger] self.entries@[j].name@
    }

    /// The definition of `name`, if any.
    pub closed spec fn get_spec(&self, name: Seq<char>) -> Option<SymbolDefinition> {
        if exists|i: int| 0 <= i < self.entries@.len() && #[trigger] self.entries@[i].name@ == name {
            let i = choose|i: int| 0 <= i < self.entries@.len() && #[trigger] self.entries@[i].name@ == name;
            Some(self.entries@[i])
        } else {
            None
        }
    }

    /// An empty table.
    pub fn new() -> (t: Self)
        ensures
            t.wf(),
            forall|n: Seq<char>| t.get_spec(n) is None,
    {
        SymbolTable { entries: Vec::new() }
    }

    fn position_of(&self, name: &str) -> (r: Option<usize>)
        ensures
            r matches Some(i) ==> i < self.entries@.len() && self.entries@[i as int].name@ == name@,
            r is None ==> forall|i: int| 0 <= i < self.entries@.len() ==> #[trigger] self.entries@[i].name@ != name@,
    {
        let mut i: usize = 0;
        while i < self.entries.len()
            invariant
                0 <= i <= self.entries@.len(),
                forall|j: int| 0 <= j < i ==> #[trigger] self.entries@[j].name@ != name@,
            decreases self.entries@.len() - i,
        {
            if str_equal(self.entries[i].name.as_str(), name) {
                return Some(i);
            }
            i = i + 1;
        }
        None
    }

    /// Defines a symbol, replacing any definition of the same name.
    pub fn insert(&mut self, symbol: SymbolDefinition)
        requires
            old(self).wf(),
        ensures
            final(self).wf(),
            final(self).get_spec(symbol.name@) == Some(symbol),
            forall|n: Seq<char>| n != symbol.name@ ==> final(self).get_spec(n) == old(self).get_spec(n),
    {
        let ghost name = symbol.name@;
        match self.position_of(symbol.name.as_str()) {
            Some(i) => {
                self.entries.set(i, symbol);
                proof {
                    assert(self.entries@[i as int].name@ == name);
                    assert forall|n: Seq<char>| n != name implies self.get_spec(n) == old(self).get_spec(n) by {
                        if exists|k: int| 0 <= k < self.entries@.len() && #[trigger] self.entries@[k].name@ == n {
                            let k = choose|k: int| 0 <= k < self.entries@.len() && #[trigger] self.entries@[k].name@ == n;
                            assert(old(self).entries@[k].name@ == n);
                        }
                        if exists|k: int| 0 <= k < old(self).entries@.len() && #[trigger] old(self).entries@[k].name@ == n {
                            let k = choose|k: int| 0 <= k < old(self).entries@.len() && #[trigger] old(self).entries@[k].name@ == n;
                            assert(self.entries@[k].name@ == n);
                        }
                        lemma_get_unique(self, n);
                        lemma_get_unique(old(self), n);
                    }
                    lemma_get_unique(self, name);
                }
            },
            None => {
                self.entries.push(symbol);
                proof {
                    let last = self.entries@.len() - 1;
                    assert(self.entries@[last].name@ == name);
                    assert forall|n: Seq<char>| n != name implies self.get_spec(n) == old(self).get_spec(n) by {
                        if exists|k: int| 0 <= k < self.entries@.len() && #[trigger] self.entries@[k].name@ == n {
                            let k = choose|k: int| 0 <= k < self.entries@.len() && #[trigger] self.entries@[k].name@ == n;
                            assert(old(self).entries@[k].name@ == n);
                        }
                        if exists|k: int| 0 <= k < old(self).entries@.len() && #[trigger] old(self).entries@[k].name@ == n {
                            let k = choose|k: int| 0 <= k < old(self).entries@.len() && #[trigger] old(self).entries@[k].name@ == n;
                            assert(self.entries@[k].name@ == n);
                        }
                        lemma_get_unique(self, n);
                        lemma_get_unique(old(self), n);
                    }
                    lemma_get_unique(self, name);
                }
            },
        }
    }

    /// Looks up a name.
    pub fn get(&self, name: &str) -> (r: Option<&SymbolDefinition>)
        requires
            self.wf(),
        ensures
            r matches Some(d) ==> self.get_spec(name@) == Some(*d),
            r is None ==> self.get_spec(name@) is None,
    {
        match self.position_of(name) {
            Some(i) => {
                proof {
                    lemma_get_unique(self, name@);
                }
                Some(&self.entries[i])
            },
            None => None,
        }
    }

    /// All definitions of the table.
    pub fn symbols(&self) -> (r: &[SymbolDefinition])
        ensures
            r@ == self.entries(),
    {
        self.entries.as_slice()
    }
}

proof fn lemma_get_unique(t: &SymbolTable, n: Seq<char>)
    requires
        t.wf(),
    ensures
        forall|k: int| 0 <= k < t.entries@.len() && #[trigger] t.entries@[k].name@ == n ==> t.get_spec(n) == Some(t.entries@[k]),
{
    assert forall|k: int| 0 <= k < t.entries@.len() && #[trigger] t.entries@[k].name@ == n implies t.get_spec(n) == Some(t.entries@[k]) by {
        let c = choose|i: int| 0 <= i < t.entries@.len() && #[trigger] t.entries@[i].name@ == n;
        if c != k {
            if c < k {
                assert(t.entries@[c].name@ != t.entries@[k].name@);
            } else {
                assert(t.entries@[k].name@ != t.entries@[c].name@);
            }
        }
    }
}

/// Defining a name and then looking it up gives back the definition, and
/// leaves every other name as it was.
pub proof fn lemma_table_read_after_write(
    before: SymbolTable,
    after: SymbolTable,
    symbol: SymbolDefinition,
    other: Seq<char>,
)
    requires
        before.wf(),
        after.wf(),
        after.get_spec(symbol.name@) == Some(symbol),
        forall|n: Seq<char>| n != symbol.name@ ==> after.get_spec(n) == before.get_spec(n),
    ensures
        after.get_spec(symbol.name@) == Some(symbol),
        other != symbol.name@ ==> after.get_spec(other) == before.get_spec(other),
{
}

// ============================================================================
// Scopes
// ============================================================================

/// A lexical scope with an optional enclosing scope.
#[derive(Debug)]
pub struct Scope {
    parent: Option<Box<Scope>>,
    symbols: SymbolTable,
}

impl Scope {
    /// Well-formedness of this scope and all enclosing ones.
    pub closed spec fn wf(&self) -> bool
        decreases self,
    {
        &&& self.symbols.wf()
        &&& match self.parent {
            Some(p) => p.wf(),
            None => true,
        }
    }

    /// The definitions of this scope itself.
    pub closed spec fn own_symbols(&self) -> SymbolTable {
        self.symbols
    }

    /// The enclosing scope, if any.
    pub closed spec fn enclosing(&self) -> Option<Scope> {
        match self.parent {
            Some(p) => Some(*p),
            None => None,
        }
    }

    /// What a lookup of `name` finds: this scope first, then the enclosing ones.
    pub closed spec fn lookup_spec(&self, name: Seq<char>) -> Option<SymbolDefinition>
        decreases self,
    {
        match self.symbols.get_spec(name) {
            Some(d) => Some(d),
            None => match self.parent {
                Some(p) => p.lookup_spec(name),
                None => None,
            },
        }
    }

    /// An empty scope with no parent.
    pub fn new() -> (s: Self)
        ensures
            s.wf(),
            forall|n: Seq<char>| s.lookup_spec(n) is None,
    {
        Scope { parent: None, symbols: SymbolTable::new() }
    }

    /// An empty scope nested in `parent`.
    pub fn child(parent: Scope) -> (s: Self)
        requires
            parent.wf(),
        ensures
            s.wf(),
            s.enclosing() == Some(parent),
            forall|n: Seq<char>| #[trigger] s.own_symbols().get_spec(n) is None,
            forall|n: Seq<char>| s.lookup_spec(n) == parent.lookup_spec(n),
    {
        let s = Scope { parent: Some(Box::new(parent)), symbols: SymbolTable::new() };
        assert forall|n: Seq<char>| s.lookup_spec(n) == parent.lookup_spec(n) by {
            assert(s.symbols.get_spec(n) is None);
        }
        s
    }

    /// Defines a symbol in this scope, shadowing enclosing definitions.
    pub fn define(&mut self, symbol: SymbolDefinition)
        requires
            old(self).wf(),
        ensures
            final(self).wf(),
            final(self).lookup_spec(symbol.name@) == Some(symbol),
            forall|n: Seq<char>| n != symbol.name@ ==> final(self).lookup_spec(n) == old(self).lookup_spec(n),
    {
        let ghost name = symbol.name@;
        self.symbols.insert(symbol);
        assert forall|n: Seq<char>| n != name implies self.lookup_spec(n) == old(self).lookup_spec(n) by {
            assert(self.symbols.get_spec(n) == old(self).symbols.get_spec(n));
        }
    }

    /// Looks a name up here and then in the enclosing scopes.
    pub fn lookup(&self, name: &str) -> (r: Option<&SymbolDefinition>)
        requires
            self.wf(),
        ensures
            r matches Some(d) ==> self.lookup_spec(name@) == Some(*d),
            r is None ==> self.lookup_spec(name@) is None,
        decreases self,
    {
        match self.symbols.get(name) {
            Some(d) => Some(d),
            None => match &self.parent {
                Some(p) => p.lookup(name),
                None => None,
            },
        }
    }

    /// The symbols defined in this scope itself.
    pub fn symbols(&self) -> (r: &[SymbolDefinition])
        ensures
            r@ == self.own_symbols().entries(),
    {
        self.symbols.symbols()
    }
}

impl Default for Scope {
    fn default() -> (s: Self)
        ensures
            s.wf(),
            forall|n: Seq<char>| s.lookup_spec(n) is None,
    {
        Scope::new()
    }
}

// ============================================================================
// Definition results and the resolver
// ============================================================================

/// The answer to a definition request.
#[derive(Debug, Clone)]
pub enum DefinitionResult {
    Single(Location),
    Multiple(Vec<Location>),
    Links(Vec<LocationLink>),
    NotFound,
}

impl DefinitionResult {
    /// Whether nothing was found.
    pub fn is_empty(&self) -> (b: bool)
        ensures
            b == match self {
                DefinitionResult::NotFound => true,
                DefinitionResult::Single(_) => false,
                DefinitionResult::Multiple(locs) => locs@.len() == 0,
                DefinitionResult::Links(links) => links@.len() == 0,
            },
    {
        match self {
            DefinitionResult::NotFound => true,
            DefinitionResult::Single(_) => false,
            DefinitionResult::Multiple(locs) => locs.len() == 0,
            DefinitionResult::Links(links) => links.len() == 0,
        }
    }
}

/// Resolves names to definitions: local definitions first, then imports.
pub struct DefinitionResolver {
    local_symbols: SymbolTable,
    imported_symbols: SymbolTable,
    line_index: Option<LineIndex>,
}

impl DefinitionResolver {
    /// Well-formedness of both tables.
    pub closed spec fn wf(&self) -> bool {
        self.local_symbols.wf() && self.imported_symbols.wf()
    }

    /// What resolving `name` finds.
    pub closed spec fn resolve_spec(&self, name: Seq<char>) -> Option<SymbolDefinition> {
        match self.local_symbols.get_spec(name) {
            Some(d) => Some(d),
            None => self.imported_symbols.get_spec(name),
        }
    }

    /// What the local definitions alone give for `name`.
    pub closed spec fn local_spec(&self, name: Seq<char>) -> Option<SymbolDefinition> {
        self.local_symbols.get_spec(name)
    }

    /// Whether a line index is attached.
    pub closed spec fn has_line_index(&self) -> bool {
        self.line_index is Some
    }

    /// A resolver that knows no symbols.
    pub fn new() -> (r: Self)
        ensures
            r.wf(),
            !r.has_line_index(),
            forall|n: Seq<char>| r.resolve_spec(n) is None,
    {
        DefinitionResolver {
            local_symbols: SymbolTable::new(),
            imported_symbols: SymbolTable::new(),
            line_index: None,
        }
    }

    /// Attaches a line index.
    pub fn with_line_index(self, index: LineIndex) -> (r: Self)
        requires
            self.wf(),
        ensures
            r.wf(),
            r.has_line_index(),
            forall|n: Seq<char>| r.resolve_spec(n) == self.resolve_spec(n),
    {
        DefinitionResolver { line_index: Some(index), ..self }
    }

    /// Registers a definition of the current document.
    pub fn register_local(&mut self, symbol: SymbolDefinition)
        requires
            old(self).wf(),
        ensures
            final(self).wf(),
            final(self).has_line_index() == old(self).has_line_index(),
            final(self).resolve_spec(symbol.name@) == Some(symbol),
            forall|n: Seq<char>| n != symbol.name@ ==> final(self).resolve_spec(n) == old(self).resolve_spec(n),
    {
        self.local_symbols.insert(symbol);
    }

    /// Registers an imported definition; local definitions take precedence.
    pub fn register_import(&mut self, symbol: SymbolDefinition)
        requires
            old(self).wf(),
        ensures
            final(self).wf(),
            final(self).has_line_index() == old(self).has_line_index(),
            final(self).resolve_spec(symbol.name@) == (match old(self).local_spec(symbol.name@) {
                Some(d) => Some(d),
                None => Some(symbol),
            }),
            forall|n: Seq<char>| n != symbol.name@ ==> final(self).resolve_spec(n) == old(self).resolve_spec(n),
    {
        self.imported_symbols.insert(symbol);
    }

    /// Resolves a name.
    pub fn resolve(&self, name: &str) -> (r: Option<&SymbolDefinition>)
        requires
            self.wf(),
        ensures
            r matches Some(d) ==> self.resolve_spec(name@) == Some(*d),
            r is None ==> self.resolve_spec(name@) is None,
    {
        match self.local_symbols.get(name) {
            Some(d) => Some(d),
            None => self.imported_symbols.get(name),
        }
    }

    /// The definition of the word under the cursor in the document.
    pub fn definition_at(&self, doc: &Document, position: Position) -> (r: DefinitionResult)
        requires
            self.wf(),
        ensures
            ({
                let line = doc_line(doc.chars(), position.line as int);
                let w = word_at_spec(line, position);
                if w.len() == 0 {
                    r is NotFound
                } else {
                    match self.resolve_spec(w) {
                        Some(d) => r matches DefinitionResult::Links(links) && links@.len() == 1
                            && links@[0].origin_selection_range == word_range_spec(line, position)
                            && links@[0].target_uri == d.uri && links@[0].target_range
                            == d.full_range && links@[0].target_selection_range == d.name_range,
                        None => r is NotFound,
                    }
                }
            }),
    {
        let word = get_word_at_position(doc, position);
        if word.as_str().unicode_len() == 0 {
            return DefinitionResult::NotFound;
        }
        match self.resolve(word.as_str()) {
            Some(symbol) => {
                let origin_range = get_word_range_at_position(doc, position);
                let mut links: Vec<LocationLink> = Vec::new();
                links.push(symbol.to_location_link(origin_range));
                DefinitionResult::Links(links)
            },
            None => DefinitionResult::NotFound,
        }
    }

    /// All references to a name; reference finding across the workspace is
    /// not implemented, so the list is always empty.
    pub fn find_references(&self, name: &str, include_definition: bool) -> (r: Vec<SymbolReference>)
        ensures
            r@.len() == 0,
    {
        Vec::new()
    }
}

impl Default for DefinitionResolver {
    fn default() -> (r: Self)
        ensures
            r.wf(),
            forall|n: Seq<char>| r.resolve_spec(n) is None,
    {
        DefinitionResolver::new()
    }
}

// ============================================================================
// Words under the cursor
// ============================================================================

/// Where the identifier containing index `c` starts.
pub open spec fn word_start(s: Seq<char>, c: int) -> int
    decreases c,
{
    if c > 0 && c <= s.len() && ident_char(s[c - 1]) {
        word_start(s, c - 1)
    } else {
        c
    }
}

/// Where the identifier containing index `c` ends (exclusive).
pub open spec fn word_end(s: Seq<char>, c: int) -> int
    decreases s.len() - c,
{
    if 0 <= c < s.len() && ident_char(s[c]) {
        word_end(s, c + 1)
    } else {
        c
    }
}

/// Whether there is an identifier character at column `c` of the line.
pub open spec fn on_word(line: Option<Seq<char>>, c: int) -> bool {
    match line {
        Some(l) => 0 <= c < l.len() && ident_char(l[c]),
        None => false,
    }
}

/// The word under the cursor; empty when the cursor is not on one.
pub open spec fn word_at_spec(line: Option<Seq<char>>, position: Position) -> Seq<char> {
    let c = position.character as int;
    if on_word(line, c) {
        let l = line.unwrap();
        l.subrange(word_start(l, c), word_end(l, c))
    } else {
        Seq::empty()
    }
}

/// The range of the word under the cursor, if the cursor is on one.
pub open spec fn word_range_spec(line: Option<Seq<char>>, position: Position) -> Option<TextRange> {
    let c = position.character as int;
    if on_word(line, c) {
        let l = line.unwrap();
        Some(TextRange {
            start: Position { line: position.line, character: word_start(l, c) as u32 },
            end: Position { line: position.line, character: word_end(l, c) as u32 },
        })
    } else {
        None
    }
}

proof fn lemma_word_bounds(s: Seq<char>, c: int)
    requires
        0 <= c <= s.len(),
    ensures
        0 <= word_start(s, c) <= c,
        c <= word_end(s, c) <= s.len(),
    decreases s.len() - c,
{
    lemma_word_start_bounds(s, c);
    if 0 <= c < s.len() && ident_char(s[c]) {
        lemma_word_bounds(s, c + 1);
    }
}

proof fn lemma_word_start_bounds(s: Seq<char>, c: int)
    requires
        0 <= c <= s.len(),
    ensures
        0 <= word_start(s, c) <= c,
    decreases c,
{
    if c > 0 && ident_char(s[c - 1]) {
        lemma_word_start_bounds(s, c - 1);
    }
}

fn word_bounds(chars: &[char], c: usize) -> (r: (usize, usize))
    requires
        c < chars@.len(),
    ensures
        r.0 == word_start(chars@, c as int),
        r.1 == word_end(chars@, c as int),
        r.0 <= c <= r.1 <= chars@.len(),
{
    let mut start = c;
    while start > 0 && is_identifier_char(chars[start - 1])
        invariant
            0 <= start <= c < chars@.len(),
            word_start(chars@, c as int) == word_start(chars@, start as int),
        decreases start,
    {
        start = start - 1;
    }
    let mut end = c;
    while end < chars.len() && is_identifier_char(chars[end])
        invariant
            c <= end <= chars@.len(),
            word_end(chars@, c as int) == word_end(chars@, end as int),
        decreases chars@.len() - end,
    {
        end = end + 1;
    }
    proof {
        lemma_word_bounds(chars@, c as int);
    }
    (start, end)
}

/// The view of an optional line.
pub open spec fn line_view(line: Option<&str>) -> Option<Seq<char>> {
    match line {
        Some(l) => Some(l@),
        None => None,
    }
}

/// The identifier under the cursor, on the line of the document at the
/// cursor, or the empty string.
pub fn get_word_at_position(doc: &Document, position: Position) -> (w: String)
    ensures
        w@ == word_at_spec(doc_line(doc.chars(), position.line as int), position),
{
    match doc.line(position.line as usize) {
        Some(l) => word_in_line(Some(l.as_str()), position),
        None => word_in_line(None, position),
    }
}

/// The range of the identifier under the cursor, on the line of the
/// document at the cursor.
pub fn get_word_range_at_position(doc: &Document, position: Position) -> (r: Option<TextRange>)
    ensures
        r == word_range_spec(doc_line(doc.chars(), position.line as int), position),
{
    match doc.line(position.line as usize) {
        Some(l) => word_range_in_line(Some(l.as_str()), position),
        None => word_range_in_line(None, position),
    }
}

/// The identifier under the cursor on the given line, or the empty string.
pub fn word_in_line(line: Option<&str>, position: Position) -> (w: String)
    ensures
        w@ == word_at_spec(line_view(line), position),
{
    let l = match line {
        Some(l) => l,
        None => return String::new(),
    };
    let chars = str_chars(l);
    let c = position.character as usize;
    if c >= chars.len() {
        return String::new();
    }
    if !is_identifier_char(chars[c]) {
        return String::new();
    }
    let (start, end) = word_bounds(chars.as_slice(), c);
    let word = slice_chars(chars.as_slice(), start, end);
    string_from_chars(word.as_slice())
}

/// The range of the identifier under the cursor on the given line, if any.
pub fn word_range_in_line(line: Option<&str>, position: Position) -> (r: Option<TextRange>)
    ensures
        r == word_range_spec(line_view(line), position),
{
    let l = match line {
        Some(l) => l,
        None => return None,
    };
    let chars = str_chars(l);
    let c = position.character as usize;
    if c >= chars.len() || !is_identifier_char(chars[c]) {
        return None;
    }
    let (start, end) = word_bounds(chars.as_slice(), c);
    Some(
        TextRange::new(
            Position::new(position.line, start as u32),
            Position::new(position.line, end as u32),
        ),
    )
}

// ============================================================================
// Names declared on a line
// ============================================================================

/// `s` without the prefix `p`, if it has it.
pub open spec fn strip_prefix(s: Seq<char>, p: Seq<char>) -> Option<Seq<char>> {
    if seq_starts_with(s, p) {
        Some(s.skip(p.len() as int))
    } else {
        None
    }
}

/// The identifier that `rest` starts with, up to the first non-identifier
/// character, which must exist.
pub open spec fn ident_before_terminator(rest: Seq<char>) -> Option<Seq<char>> {
    match first_non_ident(rest) {
        Some(e) => Some(rest.take(e)),
        None => None,
    }
}

/// The non-empty identifier that `rest` starts with, which may run to the end.
pub open spec fn nonempty_ident_prefix(rest: Seq<char>) -> Option<Seq<char>> {
    let e = match first_non_ident(rest) {
        Some(e) => e,
        None => rest.len() as int,
    };
    if e == 0 {
        None
    } else {
        Some(rest.take(e))
    }
}

/// `s` without a leading `pub `, if it has one.
pub open spec fn skip_pub(s: Seq<char>) -> Seq<char> {
    if seq_starts_with(s, seq!['p', 'u', 'b', ' ']) {
        s.skip(4)
    } else {
        s
    }
}

/// The function name of a line `fn name...`.
pub open spec fn fn_name_inner_spec(line: Seq<char>) -> Option<Seq<char>> {
    match strip_prefix(line, seq!['f', 'n', ' ']) {
        Some(rest) => ident_before_terminator(rest),
        None => None,
    }
}

/// The function name of a line `[pub ]fn name...`.
pub open spec fn fn_name_spec(line: Seq<char>) -> Option<Seq<char>> {
    fn_name_inner_spec(trim(skip_pub(line)))
}

/// The name declared by a line `[pub ]<keyword>name...`.
pub open spec fn keyword_name_spec(line: Seq<char>, keyword: Seq<char>) -> Option<Seq<char>> {
    match strip_prefix(skip_pub(line), keyword) {
        Some(rest) => nonempty_ident_prefix(rest),
        None => None,
    }
}

/// The variable bound by a line `let [mut ]name...`.
pub open spec fn let_name_spec(line: Seq<char>) -> Option<Seq<char>> {
    let rest = if seq_starts_with(line, seq!['l', 'e', 't', ' ', 'm', 'u', 't', ' ']) {
        Some(line.skip(8))
    } else if seq_starts_with(line, seq!['l', 'e', 't', ' ']) {
        Some(line.skip(4))
    } else {
        None
    };
    match rest {
        Some(r) => match first_non_ident(r) {
            Some(e) => if e == 0 {
                None
            } else {
                Some(r.take(e))
            },
            None => None,
        },
        None => None,
    }
}

fn strip_prefix_chars(s: &[char], p: &[char]) -> (r: Option<Vec<char>>)
    ensures
        r matches Some(v) ==> strip_prefix(s@, p@) == Some(v@),
        r is None ==> strip_prefix(s@, p@) is None,
{
    if starts_with(s, p) {
        Some(slice_chars(s, p.len(), s.len()))
    } else {
        None
    }
}

fn ident_before_terminator_exec(rest: &[char]) -> (r: Option<String>)
    ensures
        r matches Some(v) ==> ident_before_terminator(rest@) == Some(v@),
        r is None ==> ident_before_terminator(rest@) is None,
{
    match find_non_ident(rest) {
        Some(e) => {
            let name = slice_chars(rest, 0, e);
            Some(string_from_chars(name.as_slice()))
        },
        None => None,
    }
}

fn nonempty_ident_prefix_exec(rest: &[char]) -> (r: Option<String>)
    ensures
        r matches Some(v) ==> nonempty_ident_prefix(rest@) == Some(v@),
        r is None ==> nonempty_ident_prefix(rest@) is None,
{
    let e = match find_non_ident(rest) {
        Some(e) => e,
        None => rest.len(),
    };
    if e == 0 {
        return None;
    }
    let name = slice_chars(rest, 0, e);
    Some(string_from_chars(name.as_slice()))
}

/// The name of a function declared on the line (`fn name(`, `pub fn name(`).
pub fn extract_fn_name(line: &str) -> (r: Option<String>)
    ensures
        r matches Some(v) ==> fn_name_spec(line@) == Some(v@),
        r is None ==> fn_name_spec(line@) is None,
{
    let chars = str_chars(line);
    let rest = if starts_with(chars.as_slice(), &['p', 'u', 'b', ' ']) {
        slice_chars(chars.as_slice(), 4, chars.len())
    } else {
        chars
    };
    let trimmed = trim_chars(rest.as_slice());
    let s = string_from_chars(trimmed.as_slice());
    extract_fn_name_inner(s.as_str())
}

/// The name of a function declared on the line (`fn name(`).
pub fn extract_fn_name_inner(line: &str) -> (r: Option<String>)
    ensures
        r matches Some(v) ==> fn_name_inner_spec(line@) == Some(v@),
        r is None ==> fn_name_inner_spec(line@) is None,
{
    let chars = str_chars(line);
    match strip_prefix_chars(chars.as_slice(), &['f', 'n', ' ']) {
        Some(rest) => ident_before_terminator_exec(rest.as_slice()),
        None => None,
    }
}

fn keyword_name(line: &str, keyword: &[char]) -> (r: Option<String>)
    ensures
        r matches Some(v) ==> keyword_name_spec(line@, keyword@) == Some(v@),
        r is None ==> keyword_name_spec(line@, keyword@) is None,
{
    let chars = str_chars(line);
    let body = if starts_with(chars.as_slice(), &['p', 'u', 'b', ' ']) {
        slice_chars(chars.as_slice(), 4, chars.len())
    } else {
        chars
    };
    match strip_prefix_chars(body.as_slice(), keyword) {
        Some(rest) => nonempty_ident_prefix_exec(rest.as_slice()),
        None => None,
    }
}

/// The name of a struct declared on the line (`[pub ]struct Name`).
pub fn extract_struct_name(line: &str) -> (r: Option<String>)
    ensures
        r matches Some(v) ==> keyword_name_spec(line@, seq!['s', 't', 'r', 'u', 'c', 't', ' '])
            == Some(v@),
        r is None ==> keyword_name_spec(line@, seq!['s', 't', 'r', 'u', 'c', 't', ' ']) is None,
{
    let kw = ['s', 't', 'r', 'u', 'c', 't', ' '];
    let r = keyword_name(line, &kw);
    assert(kw@ =~= seq!['s', 't', 'r', 'u', 'c', 't', ' ']);
    r
}

/// The name of an enum declared on the line (`[pub ]enum Name`).
pub fn extract_enum_name(line: &str) -> (r: Option<String>)
    ensures
        r matches Some(v) ==> keyword_name_spec(line@, seq!['e', 'n', 'u', 'm', ' ']) == Some(v@),
        r is None ==> keyword_name_spec(line@, seq!['e', 'n', 'u', 'm', ' ']) is None,
{
    let kw = ['e', 'n', 'u', 'm', ' '];
    let r = keyword_name(line, &kw);
    assert(kw@ =~= seq!['e', 'n', 'u', 'm', ' ']);
    r
}

/// The name of an effect declared on the line (`[pub ]effect Name`).
pub fn extract_effect_name(line: &str) -> (r: Option<String>)
    ensures
        r matches Some(v) ==> keyword_name_spec(line@, seq!['e', 'f', 'f', 'e', 'c', 't', ' '])
            == Some(v@),
        r is None ==> keyword_name_spec(line@, seq!['e', 'f', 'f', 'e', 'c', 't', ' ']) is None,
{
    let kw = ['e', 'f', 'f', 'e', 'c', 't', ' '];
    let r = keyword_name(line, &kw);
    assert(kw@ =~= seq!['e', 'f', 'f', 'e', 'c', 't', ' ']);
    r
}

/// The variable bound on the line (`let [mut ]name`); the name must be
/// followed by a non-identifier character.
pub fn extract_let_name(line: &str) -> (r: Option<String>)
    ensures
        r matches Some(v) ==> let_name_spec(line@) == Some(v@),
        r is None ==> let_name_spec(line@) is None,
{
    let chars = str_chars(line);
    let lm = ['l', 'e', 't', ' ', 'm', 'u', 't', ' '];
    let l = ['l', 'e', 't', ' '];
    assert(lm@ =~= seq!['l', 'e', 't', ' ', 'm', 'u', 't', ' ']);
    assert(l@ =~= seq!['l', 'e', 't', ' ']);
    let rest = if starts_with(chars.as_slice(), &lm) {
        slice_chars(chars.as_slice(), 8, chars.len())
    } else if starts_with(chars.as_slice(), &l) {
        slice_chars(chars.as_slice(), 4, chars.len())
    } else {
        return None;
    };
    let e = match find_non_ident(rest.as_slice()) {
        Some(e) => e,
        None => return None,
    };
    if e == 0 {
        return None;
    }
    let name = slice_chars(rest.as_slice(), 0, e);
    Some(string_from_chars(name.as_slice()))
}


// ============================================================================
// Definitions found by scanning lines
// ============================================================================

/// `a + b` in 32 bits, wrapping around.
pub open spec fn wadd(a: u32, b: u32) -> u32 {
    if a + b <= u32::MAX { (a + b) as u32 } else { (a + b - 0x1_0000_0000) as u32 }
}

fn wadd_exec(a: u32, b: u32) -> (r: u32)
    ensures
        r == wadd(a, b),
{
    if a <= u32::MAX - b { a + b } else { b - (u32::MAX - a) - 1 }
}

/// A definition found on a line: name, kind, the whole line's range, and
/// the name's range from `start` (the byte position of the keyword's first
/// occurrence in the line, or 0, plus the keyword's length).
pub open spec fn line_def(name: Seq<char>, kind: SymbolKind, n: u32, line: Seq<char>, kw: Seq<char>) -> (Seq<char>, SymbolKind, TextRange, TextRange) {
    let found = match crate::outline::find_from(line, kw, 0) {
        Some(j) => crate::outline::bpos(line.take(j)),
        None => 0,
    };
    let start = wadd(found, kw.len() as u32);
    let end = wadd(start, crate::outline::bpos(name));
    (
        name,
        kind,
        TextRange { start: Position { line: n, character: 0 }, end: Position { line: n, character: u32::MAX } },
        TextRange { start: Position { line: n, character: start }, end: Position { line: n, character: end } },
    )
}

/// The definitions found on line `i`: a public function, a struct, an enum,
/// an effect and a binding, each when the trimmed line declares one.
#[verifier::opaque]
pub open spec fn placeholder_line(line: Seq<char>, i: int) -> Seq<(Seq<char>, SymbolKind, TextRange, TextRange)> {
    let t = trim(line);
    let n = i as u32;
    let f = match fn_name_spec(t) {
        Some(name) => seq![line_def(name, SymbolKind::Function, n, line, seq!['f', 'n', ' '])],
        None => Seq::empty(),
    };
    let st = match keyword_name_spec(t, seq!['s', 't', 'r', 'u', 'c', 't', ' ']) {
        Some(name) => seq![line_def(name, SymbolKind::Type, n, line, seq!['s', 't', 'r', 'u', 'c', 't', ' '])],
        None => Seq::empty(),
    };
    let en = match keyword_name_spec(t, seq!['e', 'n', 'u', 'm', ' ']) {
        Some(name) => seq![line_def(name, SymbolKind::Type, n, line, seq!['e', 'n', 'u', 'm', ' '])],
        None => Seq::empty(),
    };
    let ef = match keyword_name_spec(t, seq!['e', 'f', 'f', 'e', 'c', 't', ' ']) {
        Some(name) => seq![line_def(name, SymbolKind::Effect, n, line, seq!['e', 'f', 'f', 'e', 'c', 't', ' '])],
        None => Seq::empty(),
    };
    let lt = match let_name_spec(t) {
        Some(name) => {
            let kw = if seq_starts_with(t, seq!['l', 'e', 't', ' ', 'm', 'u', 't', ' ']) {
                seq!['l', 'e', 't', ' ', 'm', 'u', 't', ' ']
            } else {
                seq!['l', 'e', 't', ' ']
            };
            seq![line_def(name, SymbolKind::Variable, n, line, kw)]
        },
        None => Seq::empty(),
    };
    f + st + en + ef + lt
}

/// The definitions found on the first `n` lines, in order.
pub open spec fn placeholder_upto(lines: Seq<Seq<char>>, n: int) -> Seq<(Seq<char>, SymbolKind, TextRange, TextRange)>
    decreases n,
{
    if n <= 0 || n > lines.len() {
        Seq::empty()
    } else {
        placeholder_upto(lines, n - 1) + placeholder_line(lines[n - 1], n - 1)
    }
}

/// A definition of a document with the given values.
pub open spec fn def_is(d: SymbolDefinition, uri: Seq<char>, e: (Seq<char>, SymbolKind, TextRange, TextRange)) -> bool {
    &&& d.name@ == e.0
    &&& d.kind == e.1
    &&& d.uri@ == uri
    &&& d.full_range == e.2
    &&& d.name_range == e.3
    &&& d.documentation is None
    &&& d.parent is None
    &&& !d.is_public
}

/// The definitions are the given values, in order.
pub open spec fn defs_match(v: Seq<SymbolDefinition>, uri: Seq<char>, e: Seq<(Seq<char>, SymbolKind, TextRange, TextRange)>) -> bool {
    &&& v.len() == e.len()
    &&& forall|k: int| 0 <= k < e.len() ==> def_is(#[trigger] v[k], uri, e[k])
}

fn push_line_def(
    out: &mut Vec<SymbolDefinition>,
    Ghost(acc): Ghost<Seq<(Seq<char>, SymbolKind, TextRange, TextRange)>>,
    uri: &str,
    name: String,
    kind: SymbolKind,
    n: u32,
    line: &[char],
    kw: &[char],
)
    requires
        kw@.len() <= 8,
        defs_match(old(out)@, uri@, acc),
    ensures
        defs_match(final(out)@, uri@, acc.push(line_def(name@, kind, n, line@, kw@))),
{
    let found = match crate::outline::find_chars(line, kw) {
        Some(j) => {
            let before = slice_chars(line, 0, j);
            crate::outline::byte_len(before.as_slice()) as u32
        },
        None => 0,
    };
    let start = wadd_exec(found, kw.len() as u32);
    let name_chars = str_chars(name.as_str());
    let end = wadd_exec(start, crate::outline::byte_len(name_chars.as_slice()) as u32);
    let ghost name_view = name@;
    let d = SymbolDefinition::new(
        name,
        kind,
        crate::text::owned_string(uri),
        TextRange::line(n),
        TextRange::new(Position::new(n, start), Position::new(n, end)),
    );
    let ghost before = out@;
    out.push(d);
    let ghost e = acc.push(line_def(name_view, kind, n, line@, kw@));
    assert forall|k: int| 0 <= k < e.len() implies def_is(#[trigger] out@[k], uri@, e[k]) by {
        if k < before.len() {
            assert(out@[k] == before[k]);
        }
    }
}

/// The definition of an optional name, as a list of at most one.
pub open spec fn opt_def(name: Option<Seq<char>>, kind: SymbolKind, n: u32, line: Seq<char>, kw: Seq<char>) -> Seq<(Seq<char>, SymbolKind, TextRange, TextRange)> {
    match name {
        Some(nm) => seq![line_def(nm, kind, n, line, kw)],
        None => Seq::empty(),
    }
}

fn push_opt(
    out: &mut Vec<SymbolDefinition>,
    Ghost(acc): Ghost<Seq<(Seq<char>, SymbolKind, TextRange, TextRange)>>,
    uri: &str,
    name: Option<String>,
    kind: SymbolKind,
    n: u32,
    line: &[char],
    kw: &[char],
)
    requires
        kw@.len() <= 8,
        defs_match(old(out)@, uri@, acc),
    ensures
        defs_match(final(out)@, uri@, acc + opt_def(match name { Some(s) => Some(s@), None => None }, kind, n, line@, kw@)),
{
    match name {
        Some(nm) => {
            let ghost v = nm@;
            push_line_def(out, Ghost(acc), uri, nm, kind, n, line, kw);
            assert(acc.push(line_def(v, kind, n, line@, kw@)) =~= acc + seq![line_def(v, kind, n, line@, kw@)]);
        },
        None => {
            assert(acc + Seq::<(Seq<char>, SymbolKind, TextRange, TextRange)>::empty() =~= acc);
        },
    }
}

/// The definitions declared on one line (see `placeholder_line`).
#[verifier::rlimit(50)]
fn line_defs(uri: &str, line: &[char], i: usize) -> (r: Vec<SymbolDefinition>)
    ensures
        defs_match(r@, uri@, placeholder_line(line@, i as int)),
{
    let mut out: Vec<SymbolDefinition> = Vec::new();
    let t = trim_chars(line);
    let ts = string_from_chars(t.as_slice());
    let n = i as u32;
    let ghost tv = trim(line@);
    assert(ts@ == tv);
    let kf = ['f', 'n', ' '];
    let ks = ['s', 't', 'r', 'u', 'c', 't', ' '];
    let ke = ['e', 'n', 'u', 'm', ' '];
    let kx = ['e', 'f', 'f', 'e', 'c', 't', ' '];
    let lm = ['l', 'e', 't', ' ', 'm', 'u', 't', ' '];
    let l = ['l', 'e', 't', ' '];
    assert(kf@ =~= seq!['f', 'n', ' ']);
    assert(ks@ =~= seq!['s', 't', 'r', 'u', 'c', 't', ' ']);
    assert(ke@ =~= seq!['e', 'n', 'u', 'm', ' ']);
    assert(kx@ =~= seq!['e', 'f', 'f', 'e', 'c', 't', ' ']);
    assert(lm@ =~= seq!['l', 'e', 't', ' ', 'm', 'u', 't', ' ']);
    assert(l@ =~= seq!['l', 'e', 't', ' ']);
    let ghost acc0: Seq<(Seq<char>, SymbolKind, TextRange, TextRange)> = Seq::empty();
    let f = extract_fn_name(ts.as_str());
    push_opt(&mut out, Ghost(acc0), uri, f, SymbolKind::Function, n, line, &kf);
    let ghost acc1 = acc0 + opt_def(fn_name_spec(tv), SymbolKind::Function, n, line@, kf@);
    let st = extract_struct_name(ts.as_str());
    push_opt(&mut out, Ghost(acc1), uri, st, SymbolKind::Type, n, line, &ks);
    let ghost acc2 = acc1 + opt_def(keyword_name_spec(tv, ks@), SymbolKind::Type, n, line@, ks@);
    let en = extract_enum_name(ts.as_str());
    push_opt(&mut out, Ghost(acc2), uri, en, SymbolKind::Type, n, line, &ke);
    let ghost acc3 = acc2 + opt_def(keyword_name_spec(tv, ke@), SymbolKind::Type, n, line@, ke@);
    let ef = extract_effect_name(ts.as_str());
    push_opt(&mut out, Ghost(acc3), uri, ef, SymbolKind::Effect, n, line, &kx);
    let ghost acc4 = acc3 + opt_def(keyword_name_spec(tv, kx@), SymbolKind::Effect, n, line@, kx@);
    let lt = extract_let_name(ts.as_str());
    if starts_with(t.as_slice(), &lm) {
        push_opt(&mut out, Ghost(acc4), uri, lt, SymbolKind::Variable, n, line, &lm);
    } else {
        push_opt(&mut out, Ghost(acc4), uri, lt, SymbolKind::Variable, n, line, &l);
    }
    proof {
        let kw = if seq_starts_with(tv, lm@) { lm@ } else { l@ };
        let acc5 = acc4 + opt_def(let_name_spec(tv), SymbolKind::Variable, n, line@, kw);
        reveal(placeholder_line);
        assert(acc5 =~= placeholder_line(line@, i as int));
    }
    out
}

proof fn lemma_upto_step(lines: Seq<Seq<char>>, i: int)
    requires
        0 <= i < lines.len(),
    ensures
        placeholder_upto(lines, i + 1) == placeholder_upto(lines, i) + placeholder_line(lines[i], i),
{
}

proof fn lemma_defs_append(
    a: Seq<SymbolDefinition>,
    b: Seq<SymbolDefinition>,
    uri: Seq<char>,
    ea: Seq<(Seq<char>, SymbolKind, TextRange, TextRange)>,
    eb: Seq<(Seq<char>, SymbolKind, TextRange, TextRange)>,
)
    requires
        defs_match(a, uri, ea),
        defs_match(b, uri, eb),
    ensures
        defs_match(a + b, uri, ea + eb),
{
    assert forall|k: int| 0 <= k < (ea + eb).len() implies def_is(#[trigger] (a + b)[k], uri, (ea + eb)[k]) by {
        if k < a.len() {
            assert((a + b)[k] == a[k]);
        } else {
            assert((a + b)[k] == b[k - a.len()]);
        }
    }
}

/// The definitions that the lines of the document declare (see
/// `placeholder_line`), in order.
pub fn extract_symbols_placeholder(doc: &Document) -> (r: Vec<SymbolDefinition>)
    ensures
        defs_match(r@, doc.uri@, placeholder_upto(crate::outline::text_lines(doc.chars()),
            crate::outline::text_lines(doc.chars()).len() as int)),
{
    let text = doc.text();
    symbols_in_text(doc.uri.as_str(), text.as_str())
}

/// The definitions that the lines of a text declare (see
/// `placeholder_line`), in order, for the document `uri`.
pub fn symbols_in_text(uri: &str, text: &str) -> (r: Vec<SymbolDefinition>)
    ensures
        defs_match(r@, uri@, placeholder_upto(crate::outline::text_lines(text@), crate::outline::text_lines(text@).len() as int)),
{
    let lines = crate::outline::split_lines(text);
    let ghost lv = crate::outline::lines_view(lines@);
    let mut out: Vec<SymbolDefinition> = Vec::new();
    let mut i: usize = 0;
    while i < lines.len()
        invariant
            lv == crate::outline::lines_view(lines@),
            lv == crate::outline::text_lines(text@),
            lv.len() == lines@.len(),
            0 <= i <= lines@.len(),
            defs_match(out@, uri@, placeholder_upto(lv, i as int)),
        decreases lines@.len() - i,
    {
        let line = lines[i].as_slice();
        assert(lv[i as int] == line@);
        let mut defs = line_defs(uri, line, i);
        let ghost before = out@;
        let ghost d = defs@;
        out.append(&mut defs);
        proof {
            lemma_upto_step(lv, i as int);
            lemma_defs_append(before, d, uri@, placeholder_upto(lv, i as int), placeholder_line(lv[i as int], i as int));
        }
        i = i + 1;
    }
    out
}

} // verus!
