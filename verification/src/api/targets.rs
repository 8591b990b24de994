//! The wire shape of the registered targets: every field the manifest
//! gives except whether a target is known to be buggy, which stays
//! internal.

use vstd::prelude::*;

use crate::api::error::NOT_FOUND;
use crate::targets::{InvariantInfo, Target, TargetMethod, TargetMethodParam, TargetRegistry};

verus! {

#[derive(Debug, Clone)]
pub struct TargetMethodParamDto {
    pub name: String,
    /// Written `type` on the wire.
    pub ty: String,
}

#[derive(Debug, Clone)]
pub struct TargetMethodDto {
    pub name: String,
    pub params: Vec<TargetMethodParamDto>,
}

#[derive(Debug, Clone)]
pub struct InvariantInfoDto {
    pub id: String,
    pub name: String,
    pub description: String,
}

#[derive(Debug, Clone)]
pub struct TargetDto {
    pub id: String,
    pub name: String,
    pub contract_name: String,
    pub methods: Vec<TargetMethodDto>,
    pub available_invariants: Vec<InvariantInfoDto>,
    pub fuzz_target_name: String,
}

impl TargetMethodParamDto {
    pub open spec fn shows(self, p: TargetMethodParam) -> bool {
        self.name == p.name && self.ty == p.ty
    }

    pub fn from_param(p: &TargetMethodParam) -> (d: Self)
        ensures
            d.shows(*p),
    {
        TargetMethodParamDto { name: p.name.clone(), ty: p.ty.clone() }
    }
}

impl TargetMethodDto {
    pub open spec fn shows(self, m: TargetMethod) -> bool {
        &&& self.name == m.name
        &&& self.params@.len() == m.params@.len()
        &&& forall|i: int| 0 <= i < m.params@.len() ==> #[trigger] self.params@[i].shows(m.params@[i])
    }

    pub fn from_method(m: &TargetMethod) -> (d: Self)
        ensures
            d.shows(*m),
    {
        let mut params: Vec<TargetMethodParamDto> = Vec::new();
        let mut i: usize = 0;
        while i < m.params.len()
            invariant
                i <= m.params@.len(),
                params@.len() == i,
                forall|k: int| 0 <= k < i ==> #[trigger] params@[k].shows(m.params@[k]),
            decreases m.params.len() - i,
        {
            params.push(TargetMethodParamDto::from_param(&m.params[i]));
            i = i + 1;
        }
        TargetMethodDto { name: m.name.clone(), params }
    }
}

impl InvariantInfoDto {
    pub open spec fn shows(self, inv: InvariantInfo) -> bool {
        self.id == inv.id && self.name == inv.name && self.description == inv.description
    }

    pub fn from_info(inv: &InvariantInfo) -> (d: Self)
        ensures
            d.shows(*inv),
    {
        InvariantInfoDto {
            id: inv.id.clone(),
            name: inv.name.clone(),
            description: inv.description.clone(),
        }
    }
}

impl TargetDto {
    pub open spec fn shows(self, t: Target) -> bool {
        &&& self.id == t.id
        &&& self.name == t.name
        &&& self.contract_name == t.contract_name
        &&& self.fuzz_target_name == t.fuzz_target_name
        &&& self.methods@.len() == t.methods@.len()
        &&& forall|i: int| 0 <= i < t.methods@.len() ==> #[trigger] self.methods@[i].shows(t.methods@[i])
        &&& self.available_invariants@.len() == t.available_invariants@.len()
        &&& forall|i: int|
            0 <= i < t.available_invariants@.len() ==> #[trigger] self.available_invariants@[i].shows(
                t.available_invariants@[i],
            )
    }

    /// The wire shape of a target, in the manifest's order throughout.
    pub fn from_target(t: &Target) -> (d: Self)
        ensures
            d.shows(*t),
    {
        let mut methods: Vec<TargetMethodDto> = Vec::new();
        let mut i: usize = 0;
        while i < t.methods.len()
            invariant
                i <= t.methods@.len(),
                methods@.len() == i,
                forall|k: int| 0 <= k < i ==> #[trigger] methods@[k].shows(t.methods@[k]),
            decreases t.methods.len() - i,
        {
            methods.push(TargetMethodDto::from_method(&t.methods[i]));
            i = i + 1;
        }
        let mut invariants: Vec<InvariantInfoDto> = Vec::new();
        let mut j: usize = 0;
        while j < t.available_invariants.len()
            invariant
                j <= t.available_invariants@.len(),
                invariants@.len() == j,
                forall|k: int|
                    0 <= k < j ==> #[trigger] invariants@[k].shows(t.available_invariants@[k]),
            decreases t.available_invariants.len() - j,
        {
            invariants.push(InvariantInfoDto::from_info(&t.available_invariants[j]));
            j = j + 1;
        }
        TargetDto {
            id: t.id.clone(),
            name: t.name.clone(),
            contract_name: t.contract_name.clone(),
            methods,
            available_invariants: invariants,
            fuzz_target_name: t.fuzz_target_name.clone(),
        }
    }
}

/// Every registered target, in manifest order.
pub fn list_targets(targets: &TargetRegistry) -> (r: Vec<TargetDto>)
    ensures
        r@.len() == targets@.len(),
        forall|i: int| 0 <= i < targets@.len() ==> #[trigger] r@[i].shows(targets@[i]),
{
    let all = targets.list();
    let mut r: Vec<TargetDto> = Vec::new();
    let mut i: usize = 0;
    while i < all.len()
        invariant
            i <= all@.len(),
            all@.len() == targets@.len(),
            forall|k: int| 0 <= k < targets@.len() ==> *all@[k] == targets@[k],
            r@.len() == i,
            forall|k: int| 0 <= k < i ==> #[trigger] r@[k].shows(targets@[k]),
        decreases all.len() - i,
    {
        r.push(TargetDto::from_target(all[i]));
        i = i + 1;
    }
    r
}

/// The registered target with this id, or 404.
pub fn get_target(targets: &TargetRegistry, id: &str) -> (r: Result<TargetDto, u16>)
    ensures
        (forall|i: int| 0 <= i < targets@.len() ==> targets@[i].id@ != id@) <==> r == Err::<
            TargetDto,
            u16,
        >(NOT_FOUND),
        r is Ok ==> exists|i: int|
            0 <= i < targets@.len() && targets@[i].id@ == id@ && r->Ok_0.shows(#[trigger] targets@[i]),
{
    match targets.get(id) {
        Some(t) => Ok(TargetDto::from_target(t)),
        None => Err(NOT_FOUND),
    }
}

} // verus!
