//! The rule as the host's registry sees it: a named lint with a stable
//! identifier, a category tag and a short description, registered once at
//! startup. The host decides enablement and severity; the registry here is
//! the ordinary mapping from identifier to descriptor that registration
//! populates, read-only thereafter.

use vstd::prelude::*;
use crate::detect::lint_id_text;

verus! {

/// The category a lint is registered under.
#[derive(Clone, Copy, Debug, PartialEq, Eq, Structural)]
pub enum LintCategory {
    /// Stylistic advice; the code works either way.
    Style,
    /// The code is outright wrong or useless.
    Correctness,
    /// The code does something simple in a needlessly complex way.
    Complexity,
    /// The code can be written to run faster.
    Perf,
    /// Stricter advice than `Style`, off by default.
    Pedantic,
}

/// The descriptor of one lint: its stable identifier, its category, and a
/// short human-readable description.
#[derive(Debug, PartialEq, Eq)]
pub struct Lint {
    pub id: String,
    pub category: LintCategory,
    pub description: String,
}

/// The mathematical value of a [`Lint`]: its strings as character sequences.
#[verifier::ext_equal]
pub struct LintView {
    pub id: Seq<char>,
    pub category: LintCategory,
    pub description: Seq<char>,
}

impl View for Lint {
    type V = LintView;

    open spec fn view(&self) -> LintView {
        LintView { id: self.id@, category: self.category, description: self.description@ }
    }
}

/// The description this rule is registered with.
pub open spec fn description_text() -> Seq<char> {
    "checks for fields in struct literals where shorthands could be used"@
}

/// The descriptor of the one lint this crate provides: the redundant field
/// names rule, registered as a style lint.
pub open spec fn redundant_field_names_lint() -> LintView {
    LintView {
        id: lint_id_text(),
        category: LintCategory::Style,
        description: description_text(),
    }
}

/// The mapping from lint identifier to descriptor that registration
/// populates: entries in registration order, one per identifier.
pub struct LintRegistry {
    entries: Vec<Lint>,
}

impl LintRegistry {
    /// The registered descriptors, in registration order.
    pub closed spec fn view(&self) -> Seq<LintView> {
        self.entries@.map_values(|l: Lint| l@)
    }

    /// Whether some registered lint carries this identifier.
    pub open spec fn contains_id(self, id: Seq<char>) -> bool {
        exists|i: int| 0 <= i < self@.len() && self@[i].id == id
    }

    /// The identifier is a key: no two entries share one.
    pub open spec fn wf(self) -> bool {
        forall|i: int, j: int| 0 <= i < j < self@.len() ==> self@[i].id != self@[j].id
    }

    /// An empty registry, ready to be populated once at startup.
    pub fn new() -> (r: LintRegistry)
        ensures
            r@ == Seq::<LintView>::empty(),
            r.wf(),
    {
        let r = LintRegistry { entries: Vec::new() };
        proof {
            assert(r@ =~= Seq::<LintView>::empty());
        }
        r
    }

    /// How many lints are registered.
    pub fn len(&self) -> (n: usize)
        ensures
            n == self@.len(),
    {
        self.entries.len()
    }

    /// Register one lint. The identifier is the key: a lint whose identifier
    /// is already registered is not added again, and the registry reports
    /// whether the entry was added.
    pub fn register(&mut self, lint: Lint) -> (added: bool)
        ensures
            added == !old(self).contains_id(lint@.id),
            (if added {
                final (self)@ == old(self)@.push(lint@)
            } else {
                final (self)@ == old(self)@
            }),
            old(self).wf() ==> final (self).wf(),
    {
        let mut i: usize = 0;
        while i < self.entries.len()
            invariant
                i <= self.entries@.len(),
                *self == *old(self),
                forall|k: int| 0 <= k < i ==> self@[k].id != lint@.id,
            decreases self.entries@.len() - i,
        {
            if self.entries[i].id == lint.id {
                proof {
                    assert(self@[i as int].id == lint@.id);
                }
                return false;
            }
            i = i + 1;
        }
        let ghost before = self.entries@;
        self.entries.push(lint);
        proof {
            assert(self@ =~= before.map_values(|l: Lint| l@).push(lint@));
        }
        true
    }

    /// Look up a lint by identifier: the registered descriptor carrying it,
    /// if there is one.
    pub fn find(&self, id: &String) -> (r: Option<&Lint>)
        ensures
            (match r {
                Some(l) => self.contains_id(id@) && l@.id == id@ && exists|i: int|
                    0 <= i < self@.len() && self@[i] == l@,
                None => !self.contains_id(id@),
            }),
    {
        let mut i: usize = 0;
        while i < self.entries.len()
            invariant
                i <= self.entries@.len(),
                forall|k: int| 0 <= k < i ==> self@[k].id != id@,
            decreases self.entries@.len() - i,
        {
            if self.entries[i].id == *id {
                proof {
                    assert(self@[i as int].id == id@);
                }
                return Some(&self.entries[i]);
            }
            i = i + 1;
        }
        None
    }
}

} // verus!
