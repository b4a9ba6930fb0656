use vstd::prelude::*;
use crate::text::{lower_of, lowercase, str_eq};

verus! {

/// The built-in effect kinds.
#[derive(Clone, Copy, Debug, PartialEq, Eq, Structural)]
pub enum EffectKind {
    EQ,
    Compressor,
    Reverb,
    Delay,
    Chorus,
    Limiter,
}

/// The effect kind named by a lower-case name.
pub open spec fn effect_kind_of(s: Seq<char>) -> Option<EffectKind> {
    if s == "eq"@ {
        Some(EffectKind::EQ)
    } else if s == "compressor"@ {
        Some(EffectKind::Compressor)
    } else if s == "reverb"@ {
        Some(EffectKind::Reverb)
    } else if s == "delay"@ {
        Some(EffectKind::Delay)
    } else if s == "chorus"@ {
        Some(EffectKind::Chorus)
    } else if s == "limiter"@ {
        Some(EffectKind::Limiter)
    } else {
        None
    }
}

/// The parameters an effect kind exposes by name.
pub open spec fn has_parameter_spec(kind: EffectKind, name: Seq<char>) -> bool {
    match kind {
        EffectKind::EQ => name == "low_freq"@ || name == "low_gain"@ || name == "mid1_freq"@ || name == "mid1_gain"@
            || name == "mid1_q"@ || name == "mid2_freq"@ || name == "mid2_gain"@ || name == "mid2_q"@
            || name == "high_freq"@ || name == "high_gain"@,
        EffectKind::Compressor => name == "threshold"@ || name == "ratio"@ || name == "attack"@ || name == "release"@
            || name == "makeup"@,
        EffectKind::Reverb => name == "room_size"@ || name == "damping"@ || name == "wet_dry"@,
        EffectKind::Delay => name == "time"@ || name == "feedback"@ || name == "wet_dry"@,
        EffectKind::Chorus => name == "rate"@ || name == "depth"@ || name == "wet_dry"@,
        EffectKind::Limiter => name == "threshold"@ || name == "release"@,
    }
}

impl EffectKind {
    /// Whether the kind has a parameter of this name.
    pub fn has_parameter(&self, name: &str) -> (r: bool)
        ensures
            r == has_parameter_spec(*self, name@),
    {
        match self {
            EffectKind::EQ => str_eq(name, "low_freq") || str_eq(name, "low_gain") || str_eq(name, "mid1_freq")
                || str_eq(name, "mid1_gain") || str_eq(name, "mid1_q") || str_eq(name, "mid2_freq") || str_eq(
                name,
                "mid2_gain",
            ) || str_eq(name, "mid2_q") || str_eq(name, "high_freq") || str_eq(name, "high_gain"),
            EffectKind::Compressor => str_eq(name, "threshold") || str_eq(name, "ratio") || str_eq(name, "attack")
                || str_eq(name, "release") || str_eq(name, "makeup"),
            EffectKind::Reverb => str_eq(name, "room_size") || str_eq(name, "damping") || str_eq(name, "wet_dry"),
            EffectKind::Delay => str_eq(name, "time") || str_eq(name, "feedback") || str_eq(name, "wet_dry"),
            EffectKind::Chorus => str_eq(name, "rate") || str_eq(name, "depth") || str_eq(name, "wet_dry"),
            EffectKind::Limiter => str_eq(name, "threshold") || str_eq(name, "release"),
        }
    }

    /// Display name used in error messages.
    pub fn label(&self) -> (r: &'static str)
        ensures
            r@ == effect_label_spec(*self),
    {
        match self {
            EffectKind::EQ => "EQ",
            EffectKind::Compressor => "Compressor",
            EffectKind::Reverb => "Reverb",
            EffectKind::Delay => "Delay",
            EffectKind::Chorus => "Chorus",
            EffectKind::Limiter => "Limiter",
        }
    }

    /// The kind named by an already lower-case name.
    pub fn from_lowercase(s: &str) -> (r: Option<EffectKind>)
        ensures
            r == effect_kind_of(s@),
    {
        if str_eq(s, "eq") {
            Some(EffectKind::EQ)
        } else if str_eq(s, "compressor") {
            Some(EffectKind::Compressor)
        } else if str_eq(s, "reverb") {
            Some(EffectKind::Reverb)
        } else if str_eq(s, "delay") {
            Some(EffectKind::Delay)
        } else if str_eq(s, "chorus") {
            Some(EffectKind::Chorus)
        } else if str_eq(s, "limiter") {
            Some(EffectKind::Limiter)
        } else {
            None
        }
    }

    /// The kind named by `s` in any case.
    pub fn from_name(s: &str) -> (r: Option<EffectKind>)
        ensures
            r == effect_kind_of(lower_of(s@)),
    {
        let l = lowercase(s);
        EffectKind::from_lowercase(l.as_str())
    }
}

pub open spec fn effect_label_spec(k: EffectKind) -> Seq<char> {
    match k {
        EffectKind::EQ => "EQ"@,
        EffectKind::Compressor => "Compressor"@,
        EffectKind::Reverb => "Reverb"@,
        EffectKind::Delay => "Delay"@,
        EffectKind::Chorus => "Chorus"@,
        EffectKind::Limiter => "Limiter"@,
    }
}

/// The kind registered under `id`, looking from the newest entry back.
pub open spec fn kind_of(reg: Seq<(u64, EffectKind)>, id: u64) -> Option<EffectKind>
    decreases reg.len(),
{
    if reg.len() == 0 {
        None
    } else if reg.last().0 == id {
        Some(reg.last().1)
    } else {
        kind_of(reg.drop_last(), id)
    }
}

/// The kinds of the registered effects among `ids`, in order; unregistered
/// ids are skipped.
pub open spec fn registered_kinds(reg: Seq<(u64, EffectKind)>, ids: Seq<u64>) -> Seq<EffectKind>
    decreases ids.len(),
{
    if ids.len() == 0 {
        Seq::empty()
    } else {
        let rest = registered_kinds(reg, ids.drop_last());
        match kind_of(reg, ids.last()) {
            Some(k) => rest.push(k),
            None => rest,
        }
    }
}

proof fn lemma_kind_of_at(reg: Seq<(u64, EffectKind)>, i: int)
    requires
        0 <= i < reg.len(),
        forall|a: int, b: int| 0 <= a < b < reg.len() ==> reg[a].0 < reg[b].0,
    ensures
        kind_of(reg, reg[i].0) == Some(reg[i].1),
    decreases reg.len(),
{
    if i < reg.len() - 1 {
        assert(reg.last().0 != reg[i].0) by {
            assert(reg[i].0 < reg[reg.len() - 1].0);
        }
        assert(reg.drop_last()[i] == reg[i]);
        lemma_kind_of_at(reg.drop_last(), i);
    }
}

proof fn lemma_kind_of_absent(reg: Seq<(u64, EffectKind)>, id: u64)
    requires
        forall|i: int| 0 <= i < reg.len() ==> reg[i].0 != id,
    ensures
        kind_of(reg, id).is_none(),
    decreases reg.len(),
{
    if reg.len() > 0 {
        assert(reg.last() == reg[reg.len() - 1]);
        lemma_kind_of_absent(reg.drop_last(), id);
    }
}

/// Registering a new id leaves the kinds of other ids as they were.
pub proof fn lemma_registered_kinds_push(reg: Seq<(u64, EffectKind)>, x: (u64, EffectKind), ids: Seq<u64>)
    requires
        forall|j: int| 0 <= j < ids.len() ==> ids[j] != x.0,
    ensures
        registered_kinds(reg.push(x), ids) == registered_kinds(reg, ids),
    decreases ids.len(),
{
    if ids.len() > 0 {
        lemma_registered_kinds_push(reg, x, ids.drop_last());
        assert(reg.push(x).drop_last() =~= reg);
        assert(ids.last() == ids[ids.len() - 1]);
    }
}

/// Flat registry of effect instances, referenced from tracks by id.
pub struct EffectManager {
    pub effects: Vec<(u64, EffectKind)>,
    pub next_id: u64,
}

impl EffectManager {
    pub open spec fn has(&self, id: u64) -> bool {
        exists|i: int| 0 <= i < self.effects@.len() && self.effects@[i].0 == id
    }

    /// Ids rise strictly and stay below the next id to hand out.
    pub open spec fn wf(&self) -> bool {
        &&& forall|i: int, j: int| 0 <= i < j < self.effects@.len() ==> self.effects@[i].0 < self.effects@[j].0
        &&& forall|i: int| 0 <= i < self.effects@.len() ==> self.effects@[i].0 < self.next_id
    }

    pub fn new() -> (m: EffectManager)
        ensures
            m.wf(),
            m.effects@.len() == 0,
            m.next_id == 0,
    {
        EffectManager { effects: Vec::new(), next_id: 0 }
    }

    /// Registers an effect under the next id; `None` once ids are used up.
    pub fn create_effect(&mut self, kind: EffectKind) -> (r: Option<u64>)
        requires
            old(self).wf(),
        ensures
            final(self).wf(),
            r.is_none() <==> old(self).next_id == u64::MAX,
            r.is_none() ==> *final(self) == *old(self),
            r.is_some() ==> r == Some(old(self).next_id) && final(self).effects@ == old(self).effects@.push(
                (old(self).next_id, kind),
            ) && final(self).next_id == old(self).next_id + 1,
    {
        if self.next_id == u64::MAX {
            return None;
        }
        let id = self.next_id;
        self.effects.push((id, kind));
        self.next_id = id + 1;
        Some(id)
    }

    fn find(&self, id: u64) -> (r: Option<usize>)
        ensures
            r matches Some(i) ==> i < self.effects@.len() && self.effects@[i as int].0 == id,
            r.is_none() ==> !self.has(id),
    {
        let mut i: usize = 0;
        while i < self.effects.len()
            invariant
                i <= self.effects@.len(),
                forall|k: int| 0 <= k < i ==> self.effects@[k].0 != id,
            decreases self.effects@.len() - i,
        {
            if self.effects[i].0 == id {
                return Some(i);
            }
            i = i + 1;
        }
        None
    }

    /// The kind of the effect with this id.
    pub fn get_effect(&self, id: u64) -> (r: Option<EffectKind>)
        ensures
            r.is_some() == self.has(id),
            r matches Some(k) ==> exists|i: int| 0 <= i < self.effects@.len() && self.effects@[i] == (id, k),
            self.wf() ==> r == kind_of(self.effects@, id),
    {
        match self.find(id) {
            Some(i) => {
                proof {
                    if self.wf() {
                        lemma_kind_of_at(self.effects@, i as int);
                    }
                }
                Some(self.effects[i].1)
            },
            None => {
                proof {
                    lemma_kind_of_absent(self.effects@, id);
                }
                None
            },
        }
    }

    /// Drops an effect; returns whether it was registered.
    pub fn remove_effect(&mut self, id: u64) -> (r: bool)
        requires
            old(self).wf(),
        ensures
            final(self).wf(),
            r == old(self).has(id),
            !final(self).has(id),
            final(self).next_id == old(self).next_id,
            !r ==> final(self).effects@ == old(self).effects@,
            r ==> exists|i: int| 0 <= i < old(self).effects@.len() && old(self).effects@[i].0 == id
                && final(self).effects@ == old(self).effects@.remove(i),
    {
        match self.find(id) {
            Some(i) => {
                let ghost pre = self.effects@;
                self.effects.remove(i);
                proof {
                    assert(self.effects@ =~= pre.remove(i as int));
                    assert forall|k: int| 0 <= k < self.effects@.len() implies self.effects@[k].0 != id by {
                        if k < i {
                            assert(pre[k].0 < pre[i as int].0);
                        } else {
                            assert(pre[k + 1].0 > pre[i as int].0);
                        }
                    }
                    assert forall|a: int, b: int| 0 <= a < b < self.effects@.len() implies self.effects@[a].0
                        < self.effects@[b].0 by {
                        let a2 = if a < i { a } else { a + 1 };
                        let b2 = if b < i { b } else { b + 1 };
                        assert(pre[a2].0 < pre[b2].0);
                    }
                }
                true
            },
            None => false,
        }
    }
}

} // verus!
