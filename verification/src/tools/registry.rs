//! The tool registry: the dispatch table from tool names to tools.
//!
//! Tools are registered under the name in their definition; registering a
//! name again replaces the earlier tool. The registry is kept ordered by
//! name, so listing its definitions is deterministic.
use vstd::prelude::*;

use std::sync::Arc;

use crate::json::Json;
use crate::text::{compare_text, lemma_text_lt_irreflexive, lemma_text_lt_transitive, owned, text_eq, text_lt, TextOrder};
use crate::tools::error::ToolError;
use crate::tools::schema::{args_complaint, same_schema, validate_args, ParamSchema};

verus! {

/// What the registry knows of a tool: its name, its description and the
/// schema of its arguments.
#[derive(Debug)]
pub struct ToolDefinition {
    pub name: String,
    pub description: String,
    pub parameters: ParamSchema,
}

impl Clone for ToolDefinition {
    /// The same name and description, with a parameter schema that says
    /// the same.
    fn clone(&self) -> (r: Self)
        ensures
            r.name == self.name,
            r.description == self.description,
            same_schema(r.parameters, self.parameters),
    {
        ToolDefinition {
            name: self.name.clone(),
            description: self.description.clone(),
            parameters: self.parameters.clone(),
        }
    }
}

/// One registered tool with its definition.
struct Entry<T: ?Sized> {
    definition: ToolDefinition,
    tool: Arc<T>,
}

/// Owns the dispatch table for all known tools.
pub struct ToolRegistry<T: ?Sized> {
    entries: Vec<Entry<T>>,
}

/// Another handle to the same shared tool (`Arc::clone`).
#[verifier::external_body]
fn share<T: ?Sized>(a: &Arc<T>) -> (r: Arc<T>)
    ensures
        r == *a,
{
    Arc::clone(a)
}

impl<T: ?Sized> ToolRegistry<T> {
    /// The definitions of the registered tools, in registry order.
    pub closed spec fn listing(&self) -> Seq<ToolDefinition> {
        self.entries@.map_values(|e: Entry<T>| e.definition)
    }

    /// The registered tools, in the same order as `listing`.
    pub closed spec fn tool_list(&self) -> Seq<Arc<T>> {
        self.entries@.map_values(|e: Entry<T>| e.tool)
    }

    /// The registry is ordered strictly by tool name.
    pub open spec fn wf(&self) -> bool {
        &&& self.tool_list().len() == self.listing().len()
        &&& forall|i: int, j: int|
            0 <= i < j < self.listing().len() ==> text_lt(
                #[trigger] self.listing()[i].name@,
                #[trigger] self.listing()[j].name@,
            )
    }

    /// `listing()[i]` is registered under `name`.
    pub open spec fn has_at(&self, name: Seq<char>, i: int) -> bool {
        0 <= i < self.listing().len() && self.listing()[i].name@ == name
    }

    /// The registry as a map from tool names to definitions and tools.
    pub open spec fn view(&self) -> Map<Seq<char>, (ToolDefinition, Arc<T>)> {
        Map::new(
            |k: Seq<char>| exists|i: int| self.has_at(k, i),
            |k: Seq<char>|
                {
                    let i = choose|i: int| self.has_at(k, i);
                    (self.listing()[i], self.tool_list()[i])
                },
        )
    }

    /// In a well-formed registry, the entry at `i` is what the map holds
    /// under its name.
    pub proof fn lemma_entry(&self, i: int)
        requires
            self.wf(),
            0 <= i < self.listing().len(),
        ensures
            self@.contains_key(self.listing()[i].name@),
            self@[self.listing()[i].name@] == (self.listing()[i], self.tool_list()[i]),
    {
        let k = self.listing()[i].name@;
        assert(self.has_at(k, i));
        let j = choose|j: int| self.has_at(k, j);
        assert(self.has_at(k, j));
        if j < i {
            assert(text_lt(self.listing()[j].name@, self.listing()[i].name@));
            lemma_text_lt_irreflexive(k);
        } else if i < j {
            assert(text_lt(self.listing()[i].name@, self.listing()[j].name@));
            lemma_text_lt_irreflexive(k);
        }
    }

    /// Law: the listing of a well-formed registry is ordered strictly by
    /// name and holds exactly the registered tools, one entry per name.
    pub proof fn lemma_listing_is_registry(&self)
        requires
            self.wf(),
        ensures
            forall|i: int, j: int|
                0 <= i < j < self.listing().len() ==> text_lt(
                    #[trigger] self.listing()[i].name@,
                    #[trigger] self.listing()[j].name@,
                ),
            forall|i: int|
                0 <= i < self.listing().len() ==> #[trigger] self@[self.listing()[i].name@] == (
                    self.listing()[i],
                    self.tool_list()[i],
                ),
            forall|k: Seq<char>|
                #[trigger] self@.contains_key(k) <==> exists|i: int|
                    0 <= i < self.listing().len() && self.listing()[i].name@ == k,
            forall|i: int, j: int|
                0 <= i < self.listing().len() && 0 <= j < self.listing().len() && i != j
                    ==> self.listing()[i].name@ != self.listing()[j].name@,
    {
        assert forall|i: int| 0 <= i < self.listing().len() implies #[trigger] self@[
            self.listing()[i].name@
        ] == (self.listing()[i], self.tool_list()[i]) by {
            self.lemma_entry(i);
        }
        assert forall|k: Seq<char>| #[trigger] self@.contains_key(k) <==> exists|i: int|
            0 <= i < self.listing().len() && self.listing()[i].name@ == k by {
            if self@.contains_key(k) {
                let i = choose|i: int| self.has_at(k, i);
                assert(self.has_at(k, i));
            }
            if exists|i: int| 0 <= i < self.listing().len() && self.listing()[i].name@ == k {
                let i = choose|i: int| 0 <= i < self.listing().len() && self.listing()[i].name@ == k;
                assert(self.has_at(k, i));
            }
        }
        assert forall|i: int, j: int|
            0 <= i < self.listing().len() && 0 <= j < self.listing().len() && i != j
                implies self.listing()[i].name@ != self.listing()[j].name@ by {
            if i < j {
                assert(text_lt(self.listing()[i].name@, self.listing()[j].name@));
                lemma_text_lt_irreflexive(self.listing()[i].name@);
            } else {
                assert(text_lt(self.listing()[j].name@, self.listing()[i].name@));
                lemma_text_lt_irreflexive(self.listing()[j].name@);
            }
        }
    }

    /// Law: once a tool is registered under a name, looking that name up
    /// gives the tool and its definition, and every other name gives what it
    /// gave before.
    pub proof fn lemma_register_then_lookup(
        before: Self,
        after: Self,
        definition: ToolDefinition,
        tool: Arc<T>,
        other: Seq<char>,
    )
        requires
            after@ == before@.insert(definition.name@, (definition, tool)),
        ensures
            after@.contains_key(definition.name@),
            after@[definition.name@] == (definition, tool),
            other != definition.name@ ==> after@.contains_key(other) == before@.contains_key(
                other,
            ),
            other != definition.name@ && before@.contains_key(other) ==> after@[other]
                == before@[other],
    {
    }

    /// An empty registry.
    pub fn new() -> (r: Self)
        ensures
            r.wf(),
            r.listing().len() == 0,
            r@ == Map::<Seq<char>, (ToolDefinition, Arc<T>)>::empty(),
    {
        let r = ToolRegistry { entries: Vec::new() };
        assert(r@ =~= Map::<Seq<char>, (ToolDefinition, Arc<T>)>::empty());
        r
    }

    /// The position at which `name` is, or would be, registered: every
    /// earlier entry's name precedes it, and the entry there (if any) does
    /// not.
    fn position(&self, name: &str) -> (r: usize)
        requires
            self.wf(),
        ensures
            r <= self.listing().len(),
            forall|i: int| 0 <= i < r ==> text_lt(#[trigger] self.listing()[i].name@, name@),
            r < self.listing().len() ==> !text_lt(self.listing()[r as int].name@, name@),
    {
        let mut i: usize = 0;
        while i < self.entries.len()
            invariant
                i <= self.listing().len(),
                self.listing().len() == self.entries@.len(),
                forall|j: int| 0 <= j < i ==> text_lt(#[trigger] self.listing()[j].name@, name@),
            decreases self.entries@.len() - i,
        {
            assert(self.listing()[i as int] == self.entries@[i as int].definition);
            match compare_text(self.entries[i].definition.name.as_str(), name) {
                TextOrder::Less => {},
                _ => {
                    return i;
                },
            }
            i = i + 1;
        }
        i
    }

    /// Registers a shared tool under the name in its definition. If a tool
    /// with that name was registered, it is replaced and returned.
    pub fn register_arc(&mut self, definition: ToolDefinition, tool: Arc<T>) -> (r: Option<Arc<T>>)
        requires
            old(self).wf(),
        ensures
            final(self).wf(),
            final(self)@ == old(self)@.insert(definition.name@, (definition, tool)),
            r == if old(self)@.contains_key(definition.name@) {
                Some(old(self)@[definition.name@].1)
            } else {
                None
            },
            final(self).listing().len() == old(self).listing().len() + if old(
                self,
            )@.contains_key(definition.name@) {
                0int
            } else {
                1int
            },
    {
        let ghost name = definition.name@;
        let ghost old_listing = self.listing();
        let ghost old_tools = self.tool_list();
        let p = self.position(definition.name.as_str());
        let same = p < self.entries.len() && text_eq(
            self.entries[p].definition.name.as_str(),
            definition.name.as_str(),
        );
        proof {
            if p < old_listing.len() {
                assert(old_listing[p as int] == old(self).entries@[p as int].definition);
            }
        }
        if same {
            let old_entry = self.entries.remove(p);
            self.entries.insert(p, Entry { definition, tool });
            proof {
                let new_listing = self.listing();
                assert(new_listing =~= old_listing.update(p as int, definition));
                assert(self.tool_list() =~= old_tools.update(p as int, tool));
                old(self).lemma_entry(p as int);
                assert(self.wf());
                assert(self@ =~= old(self)@.insert(name, (definition, tool))) by {
                    assert forall|k: Seq<char>| #[trigger] self@.contains_key(k) == old(self)@.insert(
                        name,
                        (definition, tool),
                    ).contains_key(k) by {
                        if exists|i: int| self.has_at(k, i) {
                            let i = choose|i: int| self.has_at(k, i);
                            if i != p {
                                assert(old(self).has_at(k, i));
                            }
                        }
                        if exists|i: int| old(self).has_at(k, i) {
                            let i = choose|i: int| old(self).has_at(k, i);
                            if i != p {
                                assert(self.has_at(k, i));
                            } else {
                                assert(self.has_at(k, i));
                            }
                        }
                    }
                    assert forall|k: Seq<char>| #[trigger] self@.contains_key(k) implies self@[k]
                        == old(self)@.insert(name, (definition, tool))[k] by {
                        let i = choose|i: int| self.has_at(k, i);
                        self.lemma_entry(i);
                        if i != p {
                            old(self).lemma_entry(i);
                        }
                    }
                }
            }
            Some(old_entry.tool)
        } else {
            self.entries.insert(p, Entry { definition, tool });
            proof {
                let new_listing = self.listing();
                assert(new_listing =~= old_listing.insert(p as int, definition));
                assert(self.tool_list() =~= old_tools.insert(p as int, tool));
                // The new name differs from every earlier one.
                assert forall|i: int| 0 <= i < old_listing.len() implies old_listing[i].name@
                    != name by {
                    if i < p {
                        lemma_text_lt_irreflexive(name);
                    } else {
                        if old_listing[i].name@ == name {
                            if i > p {
                                assert(text_lt(old_listing[p as int].name@, name));
                            }
                        }
                    }
                }
                assert(!old(self)@.contains_key(name)) by {
                    if exists|i: int| old(self).has_at(name, i) {
                        let i = choose|i: int| old(self).has_at(name, i);
                        assert(old_listing[i].name@ != name);
                    }
                }
                // The new name lies strictly between its neighbours.
                assert forall|i: int, j: int|
                    0 <= i < j < new_listing.len() implies text_lt(
                    #[trigger] new_listing[i].name@,
                    #[trigger] new_listing[j].name@,
                ) by {
                    if p < old_listing.len() {
                        crate::text::lemma_text_lt_total(old_listing[p as int].name@, name);
                    }
                    if i < p && j == p {
                    } else if i == p && j > p {
                        assert(new_listing[j].name@ == old_listing[j - 1].name@);
                        if j - 1 > p {
                            assert(text_lt(old_listing[p as int].name@, old_listing[j - 1].name@));
                            lemma_text_lt_transitive(
                                name,
                                old_listing[p as int].name@,
                                old_listing[j - 1].name@,
                            );
                        }
                    } else if i < p && j > p {
                        assert(text_lt(old_listing[i].name@, name));
                        assert(new_listing[j].name@ == old_listing[j - 1].name@);
                        assert(text_lt(old_listing[i].name@, old_listing[j - 1].name@));
                    } else if i > p {
                        assert(new_listing[i].name@ == old_listing[i - 1].name@);
                        assert(new_listing[j].name@ == old_listing[j - 1].name@);
                    }
                }
                assert(self.wf());
                assert(self@ =~= old(self)@.insert(name, (definition, tool))) by {
                    assert forall|k: Seq<char>| #[trigger] self@.contains_key(k) == old(self)@.insert(
                        name,
                        (definition, tool),
                    ).contains_key(k) by {
                        if exists|i: int| self.has_at(k, i) {
                            let i = choose|i: int| self.has_at(k, i);
                            if i < p {
                                assert(old(self).has_at(k, i));
                            } else if i > p {
                                assert(old(self).has_at(k, i - 1));
                            }
                        }
                        if exists|i: int| old(self).has_at(k, i) {
                            let i = choose|i: int| old(self).has_at(k, i);
                            if i < p {
                                assert(self.has_at(k, i));
                            } else {
                                assert(self.has_at(k, i + 1));
                            }
                        }
                        if k == name {
                            assert(self.has_at(k, p as int));
                        }
                    }
                    assert forall|k: Seq<char>| #[trigger] self@.contains_key(k) implies self@[k]
                        == old(self)@.insert(name, (definition, tool))[k] by {
                        let i = choose|i: int| self.has_at(k, i);
                        self.lemma_entry(i);
                        if i < p {
                            old(self).lemma_entry(i);
                        } else if i > p {
                            old(self).lemma_entry(i - 1);
                        }
                    }
                }
            }
            None
        }
    }

    /// The index of the entry registered under `name`.
    fn index_of(&self, name: &str) -> (r: Option<usize>)
        ensures
            match r {
                Some(i) => self.has_at(name@, i as int),
                None => !self@.contains_key(name@),
            },
    {
        let mut i: usize = 0;
        while i < self.entries.len()
            invariant
                i <= self.entries@.len(),
                self.listing().len() == self.entries@.len(),
                forall|j: int| 0 <= j < i ==> !self.has_at(name@, j),
            decreases self.entries@.len() - i,
        {
            assert(self.listing()[i as int] == self.entries@[i as int].definition);
            if text_eq(self.entries[i].definition.name.as_str(), name) {
                return Some(i);
            }
            i = i + 1;
        }
        None
    }

    /// Returns `true` if a tool with the given name is registered.
    pub fn contains(&self, name: &str) -> (r: bool)
        ensures
            r == self@.contains_key(name@),
    {
        match self.index_of(name) {
            Some(i) => {
                assert(self.has_at(name@, i as int));
                true
            },
            None => false,
        }
    }

    /// The tool registered under `name`.
    pub fn get(&self, name: &str) -> (r: Option<&Arc<T>>)
        requires
            self.wf(),
        ensures
            match r {
                Some(t) => self@.contains_key(name@) && *t == self@[name@].1,
                None => !self@.contains_key(name@),
            },
    {
        match self.index_of(name) {
            Some(i) => {
                proof {
                    self.lemma_entry(i as int);
                }
                assert(self.tool_list()[i as int] == self.entries@[i as int].tool);
                Some(&self.entries[i].tool)
            },
            None => None,
        }
    }

    /// The tool registered under `name`, or `NotFound`.
    pub fn lookup(&self, name: &str) -> (r: Result<&Arc<T>, ToolError>)
        requires
            self.wf(),
        ensures
            self@.contains_key(name@) ==> (r matches Ok(t) && *t == self@[name@].1),
            !self@.contains_key(name@) ==> (r matches Err(ToolError::NotFound(n)) && n@ == name@),
    {
        match self.get(name) {
            Some(t) => Ok(t),
            None => Err(ToolError::NotFound(owned(name))),
        }
    }

    /// The tool registered under `name`, once `args` have passed the
    /// structural preflight against its parameter schema.
    pub fn prepare_call(&self, name: &str, args: &Json) -> (r: Result<&Arc<T>, ToolError>)
        requires
            self.wf(),
        ensures
            !self@.contains_key(name@) ==> (r matches Err(ToolError::NotFound(n)) && n@ == name@),
            self@.contains_key(name@) ==> match args_complaint(*args, self@[name@].0.parameters) {
                None => r matches Ok(t) && *t == self@[name@].1,
                Some(m) => r matches Err(ToolError::InvalidArgs(e)) && e@ == m,
            },
    {
        match self.index_of(name) {
            Some(i) => {
                proof {
                    self.lemma_entry(i as int);
                }
                assert(self.tool_list()[i as int] == self.entries@[i as int].tool);
                assert(self.listing()[i as int] == self.entries@[i as int].definition);
                match validate_args(args, &self.entries[i].definition.parameters) {
                    Ok(()) => Ok(&self.entries[i].tool),
                    Err(e) => Err(e),
                }
            },
            None => Err(ToolError::NotFound(owned(name))),
        }
    }

    /// All registered definitions, ordered by name.
    pub fn definitions(&self) -> (r: Vec<&ToolDefinition>)
        ensures
            r@.len() == self.listing().len(),
            forall|i: int| 0 <= i < r@.len() ==> *#[trigger] r@[i] == self.listing()[i],
    {
        let mut r: Vec<&ToolDefinition> = Vec::new();
        let mut i: usize = 0;
        while i < self.entries.len()
            invariant
                i <= self.entries@.len(),
                self.listing().len() == self.entries@.len(),
                r@.len() == i,
                forall|j: int| 0 <= j < i ==> *#[trigger] r@[j] == self.listing()[j],
            decreases self.entries@.len() - i,
        {
            assert(self.listing()[i as int] == self.entries@[i as int].definition);
            r.push(&self.entries[i].definition);
            i = i + 1;
        }
        r
    }

    /// Number of registered tools.
    pub fn len(&self) -> (r: usize)
        ensures
            r == self.listing().len(),
    {
        self.entries.len()
    }

    /// Whether no tool is registered.
    pub fn is_empty(&self) -> (r: bool)
        ensures
            r == (self.listing().len() == 0),
    {
        self.entries.len() == 0
    }
}

impl<T> ToolRegistry<T> {
    /// Registers a tool under the name in its definition. If a tool with
    /// that name was registered, it is replaced and returned.
    pub fn register(&mut self, definition: ToolDefinition, tool: T) -> (r: Option<Arc<T>>)
        requires
            old(self).wf(),
        ensures
            final(self).wf(),
            final(self)@.dom() == old(self)@.dom().insert(definition.name@),
            final(self)@[definition.name@].0 == definition,
            *final(self)@[definition.name@].1 == tool,
            forall|k: Seq<char>|
                k != definition.name@ && #[trigger] old(self)@.contains_key(k) ==> final(self)@[k]
                    == old(self)@[k],
            r == if old(self)@.contains_key(definition.name@) {
                Some(old(self)@[definition.name@].1)
            } else {
                None
            },
            final(self).listing().len() == old(self).listing().len() + if old(
                self,
            )@.contains_key(definition.name@) {
                0int
            } else {
                1int
            },
    {
        let ghost name = definition.name@;
        let a = Arc::new(tool);
        let r = self.register_arc(definition, a);
        assert(self@.dom() =~= old(self)@.dom().insert(name));
        r
    }
}

impl<T: ?Sized> Clone for ToolRegistry<T> {
    /// Another registry with the same tools (the same shared handles) under
    /// the same names and descriptions, with parameter schemas that say the
    /// same, in the same order.
    fn clone(&self) -> (r: Self)
        ensures
            r.tool_list() == self.tool_list(),
            r.listing().len() == self.listing().len(),
            forall|i: int|
                0 <= i < self.listing().len() ==> #[trigger] r.listing()[i].name
                    == self.listing()[i].name && r.listing()[i].description
                    == self.listing()[i].description && same_schema(
                    r.listing()[i].parameters,
                    self.listing()[i].parameters,
                ),
            self.wf() ==> r.wf(),
            self.wf() ==> r@.dom() == self@.dom(),
            self.wf() ==> forall|k: Seq<char>|
                #[trigger] self@.contains_key(k) ==> r@[k].1 == self@[k].1 && r@[k].0.name
                    == self@[k].0.name && r@[k].0.description == self@[k].0.description
                    && same_schema(r@[k].0.parameters, self@[k].0.parameters),
    {
        let mut entries: Vec<Entry<T>> = Vec::new();
        let mut i: usize = 0;
        while i < self.entries.len()
            invariant
                i <= self.entries@.len(),
                entries@.len() == i,
                forall|j: int|
                    0 <= j < i ==> (#[trigger] entries@[j]).tool == self.entries@[j].tool
                        && entries@[j].definition.name == self.entries@[j].definition.name
                        && entries@[j].definition.description
                        == self.entries@[j].definition.description && same_schema(
                        entries@[j].definition.parameters,
                        self.entries@[j].definition.parameters,
                    ),
            decreases self.entries@.len() - i,
        {
            let e = &self.entries[i];
            entries.push(Entry { definition: e.definition.clone(), tool: share(&e.tool) });
            i = i + 1;
        }
        let r = ToolRegistry { entries };
        assert(r.tool_list() =~= self.tool_list());
        assert forall|j: int| 0 <= j < self.listing().len() implies #[trigger] r.listing()[j].name
            == self.listing()[j].name && r.listing()[j].description
            == self.listing()[j].description && same_schema(
            r.listing()[j].parameters,
            self.listing()[j].parameters,
        ) by {
            assert(r.listing()[j] == r.entries@[j].definition);
            assert(self.listing()[j] == self.entries@[j].definition);
        }
        proof {
            if self.wf() {
                assert forall|a: int, b: int| 0 <= a < b < r.listing().len() implies text_lt(
                    #[trigger] r.listing()[a].name@,
                    #[trigger] r.listing()[b].name@,
                ) by {
                    assert(r.listing()[a].name == self.listing()[a].name);
                    assert(r.listing()[b].name == self.listing()[b].name);
                }
                assert(r.wf());
                assert forall|k: Seq<char>| #[trigger] r@.contains_key(k) == self@.contains_key(k) by {
                    if r@.contains_key(k) {
                        let i = choose|i: int| r.has_at(k, i);
                        assert(self.has_at(k, i));
                    }
                    if self@.contains_key(k) {
                        let i = choose|i: int| self.has_at(k, i);
                        assert(r.has_at(k, i));
                    }
                }
                assert(r@.dom() =~= self@.dom());
                assert forall|k: Seq<char>| #[trigger] self@.contains_key(k) implies r@[k].1
                    == self@[k].1 && r@[k].0.name == self@[k].0.name && r@[k].0.description
                    == self@[k].0.description && same_schema(
                    r@[k].0.parameters,
                    self@[k].0.parameters,
                ) by {
                    let i = choose|i: int| self.has_at(k, i);
                    assert(self.has_at(k, i));
                    self.lemma_entry(i);
                    r.lemma_entry(i);
                }
            }
        }
        r
    }
}

impl<T: ?Sized> Default for ToolRegistry<T> {
    fn default() -> (r: Self)
        ensures
            r.wf(),
            r@ == Map::<Seq<char>, (ToolDefinition, Arc<T>)>::empty(),
    {
        Self::new()
    }
}

} // verus!
