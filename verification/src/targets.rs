//! The target manifest: the fixed list of contracts the backend knows how
//! to fuzz.
//!
//! This is where "a campaign references a known target id, never an
//! uploaded blob" is enforced: the registry is built once from a manifest a
//! maintainer edits, and campaign creation can only look a target id up in
//! it.

use vstd::prelude::*;

use crate::text::{chars_of, find_run_end, push_str, same_text, trimmed, CharClass};

verus! {

#[derive(Debug, Clone)]
pub struct TargetMethodParam {
    pub name: String,
    /// The parameter's type, as the manifest spells it (`type` there).
    pub ty: String,
}

#[derive(Debug, Clone)]
pub struct TargetMethod {
    pub name: String,
    pub params: Vec<TargetMethodParam>,
}

#[derive(Debug, Clone)]
pub struct InvariantInfo {
    pub id: String,
    pub name: String,
    pub description: String,
}

#[derive(Debug, Clone)]
pub struct Target {
    pub id: String,
    pub name: String,
    pub contract_name: String,
    pub methods: Vec<TargetMethod>,
    pub available_invariants: Vec<InvariantInfo>,
    /// The `cargo fuzz` target this maps to, e.g. `counter_fuzz`.
    pub fuzz_target_name: String,
    pub known_buggy: bool,
}

/// Why the manifest could not be loaded.
#[derive(Debug, Clone)]
pub enum TargetsError {
    /// The manifest file could not be read; `source` is the I/O error's text.
    Read { path: String, source: String },
    /// The manifest is not valid JSON of the expected shape; `source` is the
    /// parser's error text.
    Parse { path: String, source: String },
    /// The manifest parsed but breaks a rule; the text says which.
    Invalid(String),
}

impl TargetsError {
    pub open spec fn spec_text(&self) -> Seq<char> {
        match self {
            TargetsError::Read { path, source } => "failed to read target manifest at "@ + path@
                + ": "@ + source@,
            TargetsError::Parse { path, source } => "failed to parse target manifest at "@ + path@
                + ": "@ + source@,
            TargetsError::Invalid(m) => "target manifest is invalid: "@ + m@,
        }
    }

    /// The error's message: `failed to read target manifest at {path}:
    /// {source}`, `failed to parse target manifest at {path}: {source}`, or
    /// `target manifest is invalid: {reason}`.
    pub fn to_string(&self) -> (r: String)
        ensures
            r@ == self.spec_text(),
    {
        match self {
            TargetsError::Read { path, source } => {
                let mut r = String::from_str("failed to read target manifest at ");
                push_str(&mut r, path.as_str());
                push_str(&mut r, ": ");
                push_str(&mut r, source.as_str());
                r
            },
            TargetsError::Parse { path, source } => {
                let mut r = String::from_str("failed to parse target manifest at ");
                push_str(&mut r, path.as_str());
                push_str(&mut r, ": ");
                push_str(&mut r, source.as_str());
                r
            },
            TargetsError::Invalid(m) => {
                let mut r = String::from_str("target manifest is invalid: ");
                push_str(&mut r, m.as_str());
                r
            },
        }
    }
}

/// `s` is empty once trimmed: all of it is white space.
pub open spec fn is_blank(s: Seq<char>) -> bool {
    trimmed(s).len() == 0
}

/// Decides `is_blank`.
pub fn blank(s: &str) -> (r: bool)
    ensures
        r == is_blank(s@),
{
    let cs = chars_of(s);
    let start = find_run_end(cs.as_slice(), 0, CharClass::WhiteSpace);
    proof {
        if start < cs@.len() {
            crate::text::lemma_trim_bounds(s@);
        }
    }
    start >= cs.len()
}

/// What is wrong with the target at position `i` of a manifest, judged as
/// the manifest is read in order: a blank id, a blank `fuzz_target_name`,
/// or an id already taken by an earlier target.
pub open spec fn target_error(ts: Seq<Target>, i: int) -> Option<Seq<char>> {
    let t = ts[i];
    if is_blank(t.id@) {
        Some("target with empty id"@)
    } else if is_blank(t.fuzz_target_name@) {
        Some("target `"@ + t.id@ + "` has an empty fuzz_target_name"@)
    } else if exists|j: int| 0 <= j < i && ts[j].id@ == t.id@ {
        Some("duplicate target id `"@ + t.id@ + "`"@)
    } else {
        None
    }
}

/// The first problem with the manifest at or after position `i`.
pub open spec fn first_target_error(ts: Seq<Target>, i: int) -> Option<Seq<char>>
    decreases ts.len() - i,
{
    if i < 0 || i >= ts.len() {
        None
    } else if target_error(ts, i) is Some {
        target_error(ts, i)
    } else {
        first_target_error(ts, i + 1)
    }
}

/// No two targets share an id.
pub open spec fn unique_ids(ts: Seq<Target>) -> bool {
    forall|i: int, j: int| 0 <= i < j < ts.len() ==> ts[i].id@ != ts[j].id@
}

/// The loaded, validated set of targets, in manifest order.
#[derive(Debug)]
pub struct TargetRegistry {
    targets: Vec<Target>,
}

impl View for TargetRegistry {
    type V = Seq<Target>;

    closed spec fn view(&self) -> Seq<Target> {
        self.targets@
    }
}

impl TargetRegistry {
    #[verifier::type_invariant]
    spec fn ids_unique(self) -> bool {
        unique_ids(self.targets@)
    }

    /// Validates a manifest's targets in order: the first target with a
    /// blank id, a blank `fuzz_target_name`, or an id used before is
    /// refused with a `TargetsError::Invalid` saying so; otherwise the
    /// registry holds exactly these targets, in this order.
    pub fn from_targets(targets: Vec<Target>) -> (r: Result<Self, TargetsError>)
        ensures
            first_target_error(targets@, 0) is None <==> r is Ok,
            r matches Ok(reg) ==> reg@ == targets@,
            r matches Err(e) ==> (e matches TargetsError::Invalid(m) && first_target_error(
                targets@,
                0,
            ) == Some(m@)),
    {
        let mut i: usize = 0;
        while i < targets.len()
            invariant
                i <= targets@.len(),
                first_target_error(targets@, 0) == first_target_error(targets@, i as int),
                unique_ids(targets@.take(i as int)),
            decreases targets.len() - i,
        {
            let t = &targets[i];
            if blank(t.id.as_str()) {
                let m = String::from_str("target with empty id");
                return Err(TargetsError::Invalid(m));
            }
            if blank(t.fuzz_target_name.as_str()) {
                let mut m = String::from_str("target `");
                push_str(&mut m, t.id.as_str());
                push_str(&mut m, "` has an empty fuzz_target_name");
                return Err(TargetsError::Invalid(m));
            }
            let mut j: usize = 0;
            while j < i
                invariant
                    j <= i < targets@.len(),
                    t == targets@[i as int],
                    !is_blank(t.id@),
                    !is_blank(t.fuzz_target_name@),
                    first_target_error(targets@, 0) == first_target_error(targets@, i as int),
                    forall|q: int| 0 <= q < j ==> targets@[q].id@ != t.id@,
                decreases i - j,
            {
                if targets[j].id == t.id {
                    let mut m = String::from_str("duplicate target id `");
                    push_str(&mut m, t.id.as_str());
                    push_str(&mut m, "`");
                    proof {
                        assert(targets@[j as int].id@ == t.id@);
                        assert(target_error(targets@, i as int) == Some(m@));
                    }
                    return Err(TargetsError::Invalid(m));
                }
                j = j + 1;
            }
            proof {
                assert(target_error(targets@, i as int) is None);
                let next = targets@.take(i + 1);
                assert forall|p: int, q: int| 0 <= p < q < next.len() implies next[p].id@ != next[q].id@ by {
                    if q < i {
                        assert(targets@.take(i as int)[p] == next[p]);
                        assert(targets@.take(i as int)[q] == next[q]);
                    }
                }
            }
            i = i + 1;
        }
        proof {
            assert(targets@.take(targets@.len() as int) =~= targets@);
        }
        Ok(TargetRegistry { targets })
    }

    /// Every target, in manifest order.
    pub fn list(&self) -> (r: Vec<&Target>)
        ensures
            r@.len() == self@.len(),
            forall|i: int| 0 <= i < self@.len() ==> *r@[i] == self@[i],
            unique_ids(self@),
    {
        proof {
            use_type_invariant(self);
        }
        let mut r: Vec<&Target> = Vec::new();
        let mut i: usize = 0;
        while i < self.targets.len()
            invariant
                i <= self.targets@.len(),
                r@.len() == i,
                forall|q: int| 0 <= q < i ==> *r@[q] == self.targets@[q],
            decreases self.targets.len() - i,
        {
            r.push(&self.targets[i]);
            i = i + 1;
        }
        r
    }

    /// The target whose id is `id`, if there is one (there is at most one).
    pub fn get(&self, id: &str) -> (r: Option<&Target>)
        ensures
            r is None <==> forall|i: int| 0 <= i < self@.len() ==> self@[i].id@ != id@,
            r matches Some(t) ==> exists|i: int| 0 <= i < self@.len() && self@[i] == *t && t.id@ == id@,
            unique_ids(self@),
    {
        proof {
            use_type_invariant(self);
        }
        let mut i: usize = 0;
        while i < self.targets.len()
            invariant
                i <= self.targets@.len(),
                unique_ids(self.targets@),
                forall|q: int| 0 <= q < i ==> self.targets@[q].id@ != id@,
            decreases self.targets.len() - i,
        {
            if same_text(self.targets[i].id.as_str(), id) {
                assert(self@[i as int].id@ == id@);
                return Some(&self.targets[i]);
            }
            i = i + 1;
        }
        None
    }
}

} // verus!
