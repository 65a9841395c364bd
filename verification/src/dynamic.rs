//! The interpreted schema: suggestion values, identities and behavior
//! records driven by a [`SuggestionSignature`].
//!
//! This is one implementation of the [`YoetzSuggestion`] contract, usable
//! for any schema given as data.  A suggestion is a variant index together
//! with the variant's field values; its identity keeps the variant index and
//! the values of the `key`-role fields; the per-entity accessor is a table
//! of optional record slots, one per variant, of which at most one is meant
//! to be populated at a time (an invariant the engine maintains and the host
//! must not break).

use vstd::prelude::*;

use crate::advisor::YoetzSuggestion;
use crate::schema::{FieldRole, SuggestionSignature};

verus! {

/// The values of the `key`-role fields, in declaration order.
pub open spec fn key_fields_of(roles: Seq<FieldRole>, fields: Seq<i64>) -> Seq<i64>
    decreases roles.len(),
{
    if roles.len() == 0 {
        Seq::empty()
    } else {
        key_fields_of(roles.drop_last(), fields) + if roles.last() is Key {
            seq![fields[roles.len() - 1]]
        } else {
            Seq::empty()
        }
    }
}

/// A record refreshed in place: `input`-role fields take the new values,
/// every other field keeps the old ones.
pub open spec fn merged_fields(roles: Seq<FieldRole>, new: Seq<i64>, old: Seq<i64>) -> Seq<i64> {
    Seq::new(
        roles.len(),
        |j: int|
            if roles[j] is Input {
                new[j]
            } else {
                old[j]
            },
    )
}

/// The view of a [`DynKey`]: a variant index and the key field values.
#[verifier::ext_equal]
pub ghost struct DynKeyView {
    /// The index of the suggestion variant this identity belongs to.
    pub variant: int,
    /// The values of the variant's `key`-role fields.
    pub key_fields: Seq<i64>,
}

/// The view of a [`DynRecords`] accessor: the schema's role signature and
/// one optional record (its field values) per variant.
#[verifier::ext_equal]
pub ghost struct DynRecordsView {
    /// Per variant, the roles of its fields.
    pub schema: Seq<Seq<FieldRole>>,
    /// Per variant, the attached record's field values, if one is attached.
    pub slots: Seq<Option<Seq<i64>>>,
}

/// The identity of an interpreted suggestion: its variant and the values of
/// its `key`-role fields.
#[derive(Clone, Debug, PartialEq, Eq)]
pub struct DynKey {
    /// The index of the suggestion variant.
    pub variant: usize,
    /// The values of the variant's `key`-role fields, in declaration order.
    pub key_fields: Vec<i64>,
}

impl View for DynKey {
    type V = DynKeyView;

    open spec fn view(&self) -> DynKeyView {
        DynKeyView { variant: self.variant as int, key_fields: self.key_fields@ }
    }
}

/// One attached behavior record: all field values of the variant, `key`
/// fields retained for inspection.
#[derive(Clone, Debug, PartialEq, Eq)]
pub struct DynRecord {
    /// The variant's field values, in declaration order.
    pub fields: Vec<i64>,
}

/// The per-entity accessor over the behavior records of every variant of one
/// schema: a fixed table of optional slots indexed by variant.
#[derive(Clone, Debug, PartialEq, Eq)]
pub struct DynRecords {
    /// The role signature of the schema the records belong to.
    pub signature: SuggestionSignature,
    /// One optional record slot per variant.
    pub slots: Vec<Option<DynRecord>>,
}

impl View for DynRecords {
    type V = DynRecordsView;

    open spec fn view(&self) -> DynRecordsView {
        DynRecordsView {
            schema: self.signature@,
            slots: Seq::new(
                self.slots@.len(),
                |i: int|
                    match self.slots@[i] {
                        Some(r) => Some(r.fields@),
                        None => None,
                    },
            ),
        }
    }
}

/// An interpreted suggestion: a variant of the schema together with the
/// variant's field values.
#[derive(Clone, Debug, PartialEq, Eq)]
pub struct DynSuggestion {
    /// The role signature of the schema the suggestion belongs to.
    pub signature: SuggestionSignature,
    /// The index of the suggested variant.
    pub variant: usize,
    /// The variant's field values, in declaration order.
    pub fields: Vec<i64>,
}

impl YoetzSuggestion for DynSuggestion {
    type Key = DynKey;

    type OmniQuery = DynRecords;

    open spec fn wf(&self) -> bool {
        &&& (self.variant as int) < self.signature@.len()
        &&& self.fields@.len() == self.signature@[self.variant as int].len()
    }

    open spec fn key_spec(&self) -> DynKeyView {
        DynKeyView {
            variant: self.variant as int,
            key_fields: key_fields_of(self.signature@[self.variant as int], self.fields@),
        }
    }

    open spec fn records_wf(rv: DynRecordsView) -> bool {
        &&& rv.slots.len() == rv.schema.len()
        &&& forall|i: int|
            0 <= i < rv.slots.len() ==> ((#[trigger] rv.slots[i]) matches Some(f) ==> f.len()
                == rv.schema[i].len())
    }

    open spec fn compat(&self, rv: DynRecordsView) -> bool {
        rv.schema == self.signature@
    }

    open spec fn key_compat(kv: DynKeyView, rv: DynRecordsView) -> bool {
        0 <= kv.variant < rv.slots.len()
    }

    open spec fn remove_view(kv: DynKeyView, rv: DynRecordsView) -> DynRecordsView {
        DynRecordsView { schema: rv.schema, slots: rv.slots.update(kv.variant, None) }
    }

    open spec fn add_view(s: DynSuggestion, rv: DynRecordsView) -> DynRecordsView {
        DynRecordsView {
            schema: rv.schema,
            slots: rv.slots.update(s.variant as int, Some(s.fields@)),
        }
    }

    open spec fn can_patch(s: DynSuggestion, rv: DynRecordsView) -> bool {
        &&& (s.variant as int) < rv.slots.len()
        &&& rv.slots[s.variant as int] is Some
    }

    open spec fn patch_view(s: DynSuggestion, rv: DynRecordsView) -> DynRecordsView {
        DynRecordsView {
            schema: rv.schema,
            slots: rv.slots.update(
                s.variant as int,
                Some(
                    merged_fields(
                        s.signature@[s.variant as int],
                        s.fields@,
                        rv.slots[s.variant as int].unwrap(),
                    ),
                ),
            ),
        }
    }

    proof fn lemma_remove_preserves(kv: DynKeyView, rv: DynRecordsView) {
        let rv2 = Self::remove_view(kv, rv);
        assert forall|i: int|
            0 <= i < rv2.slots.len() implies ((#[trigger] rv2.slots[i]) matches Some(f) ==> f.len()
            == rv2.schema[i].len()) by {
            if i != kv.variant {
                assert(rv2.slots[i] == rv.slots[i]);
            }
        }
    }

    proof fn lemma_add_preserves(s: DynSuggestion, rv: DynRecordsView) {
        let rv2 = Self::add_view(s, rv);
        assert forall|i: int|
            0 <= i < rv2.slots.len() implies ((#[trigger] rv2.slots[i]) matches Some(f) ==> f.len()
            == rv2.schema[i].len()) by {
            if i != s.variant as int {
                assert(rv2.slots[i] == rv.slots[i]);
            }
        }
    }

    proof fn lemma_patch_preserves(s: DynSuggestion, rv: DynRecordsView) {
        let rv2 = Self::patch_view(s, rv);
        assert forall|i: int|
            0 <= i < rv2.slots.len() implies ((#[trigger] rv2.slots[i]) matches Some(f) ==> f.len()
            == rv2.schema[i].len()) by {
            if i != s.variant as int {
                assert(rv2.slots[i] == rv.slots[i]);
            }
        }
    }

    fn key(&self) -> (k: DynKey) {
        let roles: &Vec<FieldRole> = &self.signature.variants[self.variant];
        let mut key_fields: Vec<i64> = Vec::new();
        let ghost roles_v = self.signature@[self.variant as int];
        let mut j: usize = 0;
        while j < roles.len()
            invariant
                j <= roles.len(),
                roles == &self.signature.variants@[self.variant as int],
                roles.deep_view() == roles_v,
                roles_v.len() == roles@.len(),
                self.fields@.len() == roles_v.len(),
                key_fields@ == key_fields_of(roles_v.take(j as int), self.fields@),
            decreases roles.len() - j,
        {
            proof {
                assert(roles_v.take(j as int + 1).drop_last() =~= roles_v.take(j as int));
                assert(roles_v.take(j as int + 1).last() == roles_v[j as int]);
                assert(roles_v[j as int] == roles@[j as int].deep_view());
            }
            if roles[j] == FieldRole::Key {
                key_fields.push(self.fields[j]);
            }
            j += 1;
        }
        proof {
            assert(roles_v.take(roles_v.len() as int) =~= roles_v);
        }
        DynKey { variant: self.variant, key_fields }
    }

    fn key_eq(a: &DynKey, b: &DynKey) -> (r: bool) {
        if a.variant != b.variant {
            return false;
        }
        if a.key_fields.len() != b.key_fields.len() {
            return false;
        }
        let mut i: usize = 0;
        while i < a.key_fields.len()
            invariant
                i <= a.key_fields.len(),
                a.key_fields@.len() == b.key_fields@.len(),
                a.variant == b.variant,
                forall|t: int| 0 <= t < i ==> a.key_fields@[t] == b.key_fields@[t],
            decreases a.key_fields.len() - i,
        {
            if a.key_fields[i] != b.key_fields[i] {
                return false;
            }
            i += 1;
        }
        proof {
            assert(a.key_fields@ =~= b.key_fields@);
            assert(a@ =~= b@);
        }
        true
    }

    fn remove_components(key: &DynKey, records: &mut DynRecords) {
        records.slots.set(key.variant, None);
        proof {
            assert(records@.slots =~= old(records)@.slots.update(key.variant as int, None));
            assert(records@ =~= Self::remove_view(key@, old(records)@));
        }
    }

    fn add_components(self, records: &mut DynRecords) {
        let ghost s0 = self;
        let variant = self.variant;
        records.slots.set(variant, Some(DynRecord { fields: self.fields }));
        proof {
            assert(records@.slots =~= old(records)@.slots.update(
                s0.variant as int,
                Some(s0.fields@),
            ));
            assert(records@ =~= Self::add_view(s0, old(records)@));
        }
    }

    fn update_into_components(self, records: &mut DynRecords) -> (res: Result<(), Self>) {
        let v = self.variant;
        let populated = records.slots[v].is_some();
        if !populated {
            return Err(self);
        }
        let ghost s0 = self;
        let ghost roles_v = self.signature@[v as int];
        let ghost old_fields = old(records)@.slots[v as int].unwrap();
        let merged: Vec<i64> = match &records.slots[v] {
            Some(rec) => {
                let roles: &Vec<FieldRole> = &self.signature.variants[v];
                let mut merged: Vec<i64> = Vec::new();
                let mut j: usize = 0;
                while j < roles.len()
                    invariant
                        j <= roles.len(),
                        roles == &s0.signature.variants@[s0.variant as int],
                        roles.deep_view() == roles_v,
                        roles_v.len() == roles@.len(),
                        s0.fields@.len() == roles_v.len(),
                        rec.fields@ == old_fields,
                        old_fields.len() == roles_v.len(),
                        self.fields@ == s0.fields@,
                        merged@.len() == j,
                        forall|t: int|
                            0 <= t < j ==> merged@[t] == (if roles_v[t] is Input {
                                s0.fields@[t]
                            } else {
                                old_fields[t]
                            }),
                    decreases roles.len() - j,
                {
                    proof {
                        assert(roles_v[j as int] == roles@[j as int].deep_view());
                    }
                    let value = if roles[j] == FieldRole::Input {
                        self.fields[j]
                    } else {
                        rec.fields[j]
                    };
                    merged.push(value);
                    j += 1;
                }
                merged
            },
            None => {
                return Err(self);
            },
        };
        records.slots.set(v, Some(DynRecord { fields: merged }));
        proof {
            assert(merged@ =~= merged_fields(roles_v, s0.fields@, old_fields));
            assert(records@.slots =~= old(records)@.slots.update(
                s0.variant as int,
                Some(merged_fields(roles_v, s0.fields@, old_fields)),
            ));
            assert(records@ =~= Self::patch_view(s0, old(records)@));
        }
        Ok(())
    }
}

impl DynRecords {
    /// An accessor for the given schema with no record attached: one empty
    /// slot per variant.
    pub fn new(signature: SuggestionSignature) -> (r: DynRecords)
        ensures
            r@.schema == signature@,
            DynSuggestion::records_wf(r@),
            forall|i: int| 0 <= i < r@.slots.len() ==> r@.slots[i] is None,
    {
        let n = signature.variants.len();
        let mut slots: Vec<Option<DynRecord>> = Vec::new();
        while slots.len() < n
            invariant
                slots@.len() <= n,
                forall|i: int| 0 <= i < slots@.len() ==> slots@[i] is None,
            decreases n - slots.len(),
        {
            slots.push(None);
        }
        let r = DynRecords { signature, slots };
        proof {
            assert(r@.slots.len() == r@.schema.len());
        }
        r
    }

    /// The identity derived from the record attached in the given variant's
    /// slot, if one is attached: the variant together with the values its
    /// record holds in the `key`-role fields.
    pub fn attached_key(&self, variant: usize) -> (r: Option<DynKey>)
        requires
            DynSuggestion::records_wf(self@),
            (variant as int) < self@.slots.len(),
        ensures
            match r {
                Some(k) => self@.slots[variant as int] matches Some(f) && k@ == (DynKeyView {
                    variant: variant as int,
                    key_fields: key_fields_of(self@.schema[variant as int], f),
                }),
                None => self@.slots[variant as int] is None,
            },
    {
        let rec = match &self.slots[variant] {
            Some(rec) => rec,
            None => {
                return None;
            },
        };
        let roles: &Vec<FieldRole> = &self.signature.variants[variant];
        let ghost roles_v = self@.schema[variant as int];
        let mut key_fields: Vec<i64> = Vec::new();
        let mut j: usize = 0;
        while j < roles.len()
            invariant
                j <= roles.len(),
                roles == &self.signature.variants@[variant as int],
                roles.deep_view() == roles_v,
                roles_v.len() == roles@.len(),
                rec.fields@.len() == roles_v.len(),
                self@.slots[variant as int] == Some(rec.fields@),
                key_fields@ == key_fields_of(roles_v.take(j as int), rec.fields@),
            decreases roles.len() - j,
        {
            proof {
                assert(roles_v.take(j as int + 1).drop_last() =~= roles_v.take(j as int));
                assert(roles_v.take(j as int + 1).last() == roles_v[j as int]);
                assert(roles_v[j as int] == roles@[j as int].deep_view());
            }
            if roles[j] == FieldRole::Key {
                key_fields.push(rec.fields[j]);
            }
            j += 1;
        }
        proof {
            assert(roles_v.take(roles_v.len() as int) =~= roles_v);
        }
        Some(DynKey { variant, key_fields })
    }
}

/// Identity stability under patch: when the winning suggestion's identity
/// equals the active identity and its record slot is populated, the Decide
/// pass leaves the active identity unchanged and refreshes the record in
/// place - its `key` and `state` fields keep their old values, its `input`
/// fields take the winner's values, and every other slot is untouched.
pub proof fn lemma_identity_stability_under_patch(
    active: Option<DynKeyView>,
    pending: Option<(i64, DynSuggestion)>,
    rv: DynRecordsView,
)
    requires
        pending matches Some((_, s)) && s.wf() && s.compat(rv) && DynSuggestion::records_wf(rv)
            && DynSuggestion::can_patch(s, rv) && active == Some(s.key_spec()),
    ensures
        ({
            let s = pending.unwrap().1;
            let v = s.variant as int;
            let roles = s.signature@[v];
            let (a2, rv2) = crate::advisor::spec_decide::<DynSuggestion>(active, pending, rv);
            &&& a2 == active
            &&& rv2.slots[v] matches Some(f2) && rv.slots[v] matches Some(f1) && f2.len()
                == roles.len() && (forall|j: int|
                0 <= j < roles.len() && !((#[trigger] roles[j]) is Input) ==> f2[j] == f1[j]) && (
            forall|j: int|
                0 <= j < roles.len() && (#[trigger] roles[j]) is Input ==> f2[j] == s.fields@[j])
            &&& forall|i: int| 0 <= i < rv.slots.len() && i != v ==> rv2.slots[i] == rv.slots[i]
        }),
{
}

/// Full replacement on identity change: when the winning suggestion's
/// identity differs from the active identity, or no identity is active, the
/// Decide pass attaches exactly one record - the winner's variant, all of
/// its fields (state fields included) taken from the winner - and any
/// previously attached record of a different variant is gone.
pub proof fn lemma_full_replacement(
    active: Option<DynKeyView>,
    pending: Option<(i64, DynSuggestion)>,
    rv: DynRecordsView,
)
    requires
        pending matches Some((_, s)) && s.wf() && s.compat(rv) && DynSuggestion::records_wf(rv),
        match active {
            None => forall|i: int| 0 <= i < rv.slots.len() ==> (#[trigger] rv.slots[i]) is None,
            Some(kv) => DynSuggestion::key_compat(kv, rv) && forall|i: int|
                0 <= i < rv.slots.len() && i != kv.variant ==> (#[trigger] rv.slots[i]) is None,
        },
        active matches Some(kv) ==> kv != pending.unwrap().1.key_spec(),
    ensures
        ({
            let s = pending.unwrap().1;
            let v = s.variant as int;
            let (a2, rv2) = crate::advisor::spec_decide::<DynSuggestion>(active, pending, rv);
            &&& a2 == Some(s.key_spec())
            &&& rv2.slots[v] == Some(s.fields@)
            &&& forall|i: int| 0 <= i < rv2.slots.len() && i != v ==> (#[trigger] rv2.slots[i]) is None
        }),
{
    let s = pending.unwrap().1;
    let v = s.variant as int;
    let (a2, rv2) = crate::advisor::spec_decide::<DynSuggestion>(active, pending, rv);
    match active {
        None => {
        },
        Some(kv) => {
            let mid = DynSuggestion::remove_view(kv, rv);
            assert forall|i: int|
                0 <= i < rv2.slots.len() && i != v implies (#[trigger] rv2.slots[i]) is None by {
                assert(rv2.slots[i] == mid.slots[i]);
                if i != kv.variant {
                    assert(mid.slots[i] == rv.slots[i]);
                }
            }
        },
    }
}

/// Identity round trip: the identity derived from the record that `add`
/// attaches equals the identity derived from the original suggestion.
pub proof fn lemma_identity_round_trip(s: DynSuggestion, rv: DynRecordsView)
    requires
        s.wf(),
        s.compat(rv),
        DynSuggestion::records_wf(rv),
    ensures
        ({
            let rv2 = DynSuggestion::add_view(s, rv);
            rv2.slots[s.variant as int] matches Some(f) && (DynKeyView {
                variant: s.variant as int,
                key_fields: key_fields_of(rv2.schema[s.variant as int], f),
            }) == s.key_spec()
        }),
{
}

} // verus!
