//! Effects that a program's evaluation carries, and the policies over them.
use vstd::prelude::*;
use crate::ast::{PolicyId, SourceId, SpecPolicy};
use crate::text::push_str;
use crate::types::{policy_text, push_policy, push_source, source_text};

verus! {

#[derive(Debug, Clone, PartialEq, Eq, Hash)]
pub enum Effect {
    UntrustedData(SourceId),
    Validation(PolicyId, SourceId),
    ValidatedData(SourceId),
    TrustAssumption(SourceId),
    Unsafe,
}

pub enum SpecEffect {
    UntrustedData(SourceId),
    Validation(SpecPolicy, SourceId),
    ValidatedData(SourceId),
    TrustAssumption(SourceId),
    Unsafe,
}

impl View for Effect {
    type V = SpecEffect;

    open spec fn view(&self) -> SpecEffect {
        match self {
            Effect::UntrustedData(s) => SpecEffect::UntrustedData(*s),
            Effect::Validation(p, s) => SpecEffect::Validation(p@, *s),
            Effect::ValidatedData(s) => SpecEffect::ValidatedData(*s),
            Effect::TrustAssumption(s) => SpecEffect::TrustAssumption(*s),
            Effect::Unsafe => SpecEffect::Unsafe,
        }
    }
}

impl Effect {
    pub fn same(&self, other: &Effect) -> (r: bool)
        ensures
            r == (self@ == other@),
    {
        match (self, other) {
            (Effect::UntrustedData(a), Effect::UntrustedData(b)) => *a == *b,
            (Effect::Validation(p, a), Effect::Validation(q, b)) => p.same(q) && *a == *b,
            (Effect::ValidatedData(a), Effect::ValidatedData(b)) => *a == *b,
            (Effect::TrustAssumption(a), Effect::TrustAssumption(b)) => *a == *b,
            (Effect::Unsafe, Effect::Unsafe) => true,
            _ => false,
        }
    }

    pub fn copy(&self) -> (r: Effect)
        ensures
            r@ == self@,
    {
        match self {
            Effect::UntrustedData(s) => Effect::UntrustedData(*s),
            Effect::Validation(p, s) => Effect::Validation(p.copy(), *s),
            Effect::ValidatedData(s) => Effect::ValidatedData(*s),
            Effect::TrustAssumption(s) => Effect::TrustAssumption(*s),
            Effect::Unsafe => Effect::Unsafe,
        }
    }
}

/// An effect that only an untrusted or assumed-trusted value carries.
pub open spec fn is_untrusted(e: SpecEffect) -> bool {
    match e {
        SpecEffect::Unsafe | SpecEffect::TrustAssumption(_) | SpecEffect::UntrustedData(_) => true,
        _ => false,
    }
}

/// An effect that marks an unsafe trust boundary.
pub open spec fn is_unsafe(e: SpecEffect) -> bool {
    match e {
        SpecEffect::Unsafe | SpecEffect::TrustAssumption(_) => true,
        _ => false,
    }
}

/// A set of effects, held in the order they were first added.
#[derive(Debug)]
pub struct Effects {
    items: Vec<Effect>,
}

/// No effect occurs twice.
pub open spec fn distinct_effects(s: Seq<SpecEffect>) -> bool {
    forall|i: int, j: int| 0 <= i < j < s.len() ==> #[trigger] s[i] != #[trigger] s[j]
}

impl Effects {
    /// The effects, in the order they were first added.
    pub closed spec fn items(self) -> Seq<SpecEffect> {
        self.items@.map_values(|e: Effect| e@)
    }

    #[verifier::type_invariant]
    pub closed spec fn wf(self) -> bool {
        distinct_effects(self.items())
    }

    pub fn new() -> (r: Self)
        ensures
            r.items() == Seq::<SpecEffect>::empty(),
    {
        let r = Effects { items: Vec::new() };
        assert(r.items() =~= Seq::<SpecEffect>::empty());
        r
    }

    pub fn len(&self) -> (r: usize)
        ensures
            r == self.items().len(),
    {
        self.items.len()
    }

    /// The position of an effect, if present.
    fn position(&self, e: &Effect) -> (r: Option<usize>)
        ensures
            r matches Some(i) ==> i < self.items().len() && self.items()[i as int] == e@,
            r is None ==> !self.items().contains(e@),
    {
        let mut i: usize = 0;
        while i < self.items.len()
            invariant
                i <= self.items@.len(),
                forall|j: int| 0 <= j < i ==> self.items()[j] != e@,
            decreases self.items@.len() - i,
        {
            if self.items[i].same(e) {
                return Some(i);
            }
            i = i + 1;
        }
        None
    }

    pub fn contains(&self, e: &Effect) -> (r: bool)
        ensures
            r == self.items().contains(e@),
    {
        self.position(e).is_some()
    }

    /// Adds an effect; reports whether it was absent.
    pub fn insert(&mut self, e: Effect) -> (r: bool)
        ensures
            r == !old(self).items().contains(e@),
            r ==> final(self).items() == old(self).items().push(e@),
            !r ==> final(self).items() == old(self).items(),
    {
        proof {
            use_type_invariant(&*self);
        }
        if self.position(&e).is_some() {
            false
        } else {
            let ghost s = self.items();
            let ghost v = e@;
            let mut items: Vec<Effect> = Vec::new();
            std::mem::swap(&mut items, &mut self.items);
            items.push(e);
            proof {
                let s2 = items@.map_values(|x: Effect| x@);
                assert(s2 =~= s.push(v));
                assert forall|i: int, j: int| 0 <= i < j < s2.len() implies #[trigger] s2[i] != #[trigger] s2[j] by {
                    if j == s.len() {
                        assert(s.contains(s[i]));
                    }
                }
            }
            self.items = items;
            true
        }
    }

    /// Removes an effect; reports whether it was present.
    pub fn remove(&mut self, e: &Effect) -> (r: bool)
        ensures
            r == old(self).items().contains(e@),
            r ==> final(self).items() == old(self).items().remove(old(self).items().index_of(e@)),
            !r ==> final(self).items() == old(self).items(),
            !final(self).items().contains(e@),
    {
        proof {
            use_type_invariant(&*self);
        }
        match self.position(e) {
            None => false,
            Some(p) => {
                let ghost s = self.items();
                proof {
                    assert(s.contains(e@));
                    let k = s.index_of(e@);
                    if k != p {
                        if k < p {
                            assert(s[k] != s[p as int]);
                        } else {
                            assert(s[p as int] != s[k]);
                        }
                    }
                }
                let mut items: Vec<Effect> = Vec::new();
                std::mem::swap(&mut items, &mut self.items);
                items.remove(p);
                proof {
                    let s2 = items@.map_values(|x: Effect| x@);
                    assert(s2 =~= s.remove(p as int));
                    assert forall|i: int, j: int| 0 <= i < j < s2.len() implies #[trigger] s2[i]
                        != #[trigger] s2[j] by {
                        if j < p {
                        } else if i < p {
                            assert(s[i] != s[j + 1]);
                        } else {
                            assert(s[i + 1] != s[j + 1]);
                        }
                    }
                    if s2.contains(e@) {
                        let k = choose|k: int| 0 <= k < s2.len() && s2[k] == e@;
                        if k < p {
                            assert(s[k] != s[p as int]);
                        } else {
                            assert(s[p as int] != s[k + 1]);
                        }
                    }
                }
                self.items = items;
                true
            },
        }
    }

    /// A copy of the set.
    pub fn copy(&self) -> (r: Effects)
        ensures
            r.items() == self.items(),
    {
        proof {
            use_type_invariant(self);
        }
        let mut out: Vec<Effect> = Vec::new();
        let mut i: usize = 0;
        while i < self.items.len()
            invariant
                i <= self.items@.len(),
                out@.len() == i,
                forall|j: int| 0 <= j < i ==> (#[trigger] out@[j])@ == self.items@[j]@,
            decreases self.items@.len() - i,
        {
            out.push(self.items[i].copy());
            i = i + 1;
        }
        assert(out@.map_values(|x: Effect| x@) =~= self.items());
        Effects { items: out }
    }

    /// The effect at a position.
    pub fn get(&self, i: usize) -> (r: &Effect)
        requires
            i < self.items().len(),
        ensures
            r@ == self.items()[i as int],
    {
        &self.items[i]
    }
}

impl View for Effects {
    type V = Set<SpecEffect>;

    open spec fn view(&self) -> Set<SpecEffect> {
        self.items().to_set()
    }
}

/// No effect of the set stems from untrusted data or an assumed trust.
pub open spec fn spec_policy_ok(items: Seq<SpecEffect>) -> bool {
    forall|i: int| 0 <= i < items.len() ==> !is_untrusted(#[trigger] items[i])
}

fn policy_ok(effects: &Effects) -> (r: bool)
    ensures
        r == spec_policy_ok(effects.items()),
{
    let mut i: usize = 0;
    while i < effects.len()
        invariant
            i <= effects.items().len(),
            forall|j: int| 0 <= j < i ==> !is_untrusted(#[trigger] effects.items()[j]),
        decreases effects.items().len() - i,
    {
        match effects.get(i) {
            Effect::Unsafe | Effect::TrustAssumption(_) | Effect::UntrustedData(_) => {
                return false;
            },
            _ => {},
        }
        i = i + 1;
    }
    true
}

/// Whether a value carrying these effects may be minted: none is untrusted data, an assumed
/// trust or unsafe.
pub fn mint_policy_ok(effects: &Effects) -> (r: bool)
    ensures
        r == (forall|e: SpecEffect| effects@.contains(e) ==> !is_untrusted(e)),
        r == spec_policy_ok(effects.items()),
{
    let r = policy_ok(effects);
    proof {
        if r {
            assert forall|e: SpecEffect| effects@.contains(e) implies !is_untrusted(e) by {
                let i = choose|i: int| 0 <= i < effects.items().len() && effects.items()[i] == e;
            }
        } else {
            let i = choose|i: int| 0 <= i < effects.items().len() && is_untrusted(effects.items()[i]);
            assert(effects@.contains(effects.items()[i]));
        }
    }
    r
}

/// The policy for loans: the same as for minting.
pub fn loan_policy_ok(effects: &Effects) -> (r: bool)
    ensures
        r == (forall|e: SpecEffect| effects@.contains(e) ==> !is_untrusted(e)),
        r == spec_policy_ok(effects.items()),
{
    mint_policy_ok(effects)
}

/// The policy for repayments: the same as for minting.
pub fn repay_policy_ok(effects: &Effects) -> (r: bool)
    ensures
        r == (forall|e: SpecEffect| effects@.contains(e) ==> !is_untrusted(e)),
        r == spec_policy_ok(effects.items()),
{
    mint_policy_ok(effects)
}

/// The policy for liquidations: the same as for minting.
pub fn liquidation_policy_ok(effects: &Effects) -> (r: bool)
    ensures
        r == (forall|e: SpecEffect| effects@.contains(e) ==> !is_untrusted(e)),
        r == spec_policy_ok(effects.items()),
{
    mint_policy_ok(effects)
}

/// Whether an unsafe trust boundary was crossed.
pub fn unsafe_present(effects: &Effects) -> (r: bool)
    ensures
        r == (exists|e: SpecEffect| effects@.contains(e) && is_unsafe(e)),
{
    let mut i: usize = 0;
    while i < effects.len()
        invariant
            i <= effects.items().len(),
            forall|j: int| 0 <= j < i ==> !is_unsafe(#[trigger] effects.items()[j]),
        decreases effects.items().len() - i,
    {
        match effects.get(i) {
            Effect::Unsafe | Effect::TrustAssumption(_) => {
                assert(is_unsafe(effects.items()[i as int]));
                assert(effects@.contains(effects.items()[i as int]));
                return true;
            },
            _ => {},
        }
        i = i + 1;
    }
    proof {
        assert forall|e: SpecEffect| effects@.contains(e) implies !is_unsafe(e) by {
            let i = choose|i: int| 0 <= i < effects.items().len() && effects.items()[i] == e;
        }
    }
    false
}

// ---------------------------------------------------------------------------------------------
// Rendering effects as text.

pub open spec fn effect_text(e: SpecEffect) -> Seq<char> {
    match e {
        SpecEffect::UntrustedData(s) => "UntrustedData("@ + source_text(s) + ")"@,
        SpecEffect::Validation(p, s) => "Validation("@ + policy_text(p) + ", "@ + source_text(s) + ")"@,
        SpecEffect::ValidatedData(s) => "ValidatedData("@ + source_text(s) + ")"@,
        SpecEffect::TrustAssumption(s) => "TrustAssumption("@ + source_text(s) + ")"@,
        SpecEffect::Unsafe => "Unsafe"@,
    }
}

pub open spec fn effect_list_text(s: Seq<SpecEffect>) -> Seq<char>
    decreases s.len(),
{
    if s.len() == 0 {
        Seq::empty()
    } else if s.len() == 1 {
        effect_text(s[0])
    } else {
        effect_list_text(s.drop_last()) + ", "@ + effect_text(s.last())
    }
}

/// The text of a set of effects: `{a, b}`.
pub open spec fn effects_text(s: Seq<SpecEffect>) -> Seq<char> {
    "{"@ + effect_list_text(s) + "}"@
}

pub fn push_effect(s: &mut String, e: &Effect)
    ensures
        final(s)@ == old(s)@ + effect_text(e@),
{
    let ghost s0 = s@;
    match e {
        Effect::UntrustedData(src) => {
            push_str(s, "UntrustedData(");
            push_source(s, *src);
            push_str(s, ")");
        },
        Effect::Validation(p, src) => {
            push_str(s, "Validation(");
            push_policy(s, p);
            push_str(s, ", ");
            push_source(s, *src);
            push_str(s, ")");
        },
        Effect::ValidatedData(src) => {
            push_str(s, "ValidatedData(");
            push_source(s, *src);
            push_str(s, ")");
        },
        Effect::TrustAssumption(src) => {
            push_str(s, "TrustAssumption(");
            push_source(s, *src);
            push_str(s, ")");
        },
        Effect::Unsafe => push_str(s, "Unsafe"),
    }
    assert(s@ =~= s0 + effect_text(e@));
}

pub fn push_effects(s: &mut String, effects: &Effects)
    ensures
        final(s)@ == old(s)@ + effects_text(effects.items()),
{
    let ghost s0 = s@;
    let ghost items = effects.items();
    push_str(s, "{");
    let mut i: usize = 0;
    while i < effects.len()
        invariant
            i <= items.len(),
            items == effects.items(),
            s@ == s0 + "{"@ + effect_list_text(items.take(i as int)),
        decreases items.len() - i,
    {
        if i > 0 {
            push_str(s, ", ");
        }
        push_effect(s, effects.get(i));
        proof {
            assert(items.take(i + 1).drop_last() =~= items.take(i as int));
            assert(items.take(i + 1).last() == items[i as int]);
            if i == 0 {
                assert(items.take(0) =~= Seq::<SpecEffect>::empty());
            }
        }
        i = i + 1;
    }
    assert(items.take(items.len() as int) =~= items);
    push_str(s, "}");
    assert(s@ =~= s0 + effects_text(items));
}

} // verus!
