//! The consortium's validator set, whose total voting power is always the
//! sum of its members' voting powers.
use vstd::prelude::*;
use crate::crypto::PublicKey;
use crate::primitives::primitives::{hash_eq, Blake2bHash};

verus! {

/// A validator of the consortium.
#[derive(Debug, Clone)]
pub struct ValidatorInfo {
    pub validator_address: Blake2bHash,
    pub signing_key: PublicKey,
    pub voting_power: u64,
    pub network_operator: String,
    pub joined_at_height: u32,
}

/// Plain model of a validator: address, signing key bytes, voting power,
/// operator and joining height.
pub open spec fn info_view(v: ValidatorInfo) -> (Seq<u8>, Seq<u8>, u64, Seq<char>, u32) {
    (v.validator_address@, v.signing_key.bytes(), v.voting_power, v.network_operator@, v.joined_at_height)
}

/// Models of a list of validators.
pub open spec fn infos_view(s: Seq<ValidatorInfo>) -> Seq<(Seq<u8>, Seq<u8>, u64, Seq<char>, u32)> {
    s.map_values(|v: ValidatorInfo| info_view(v))
}

impl ValidatorInfo {
    /// A copy with the same model.
    pub fn copy_info(&self) -> (c: Self)
        ensures
            info_view(c) == info_view(*self),
    {
        ValidatorInfo {
            validator_address: self.validator_address,
            signing_key: self.signing_key.copy_key(),
            voting_power: self.voting_power,
            network_operator: self.network_operator.clone(),
            joined_at_height: self.joined_at_height,
        }
    }
}

/// Copies of a list of validators.
pub fn copy_infos(v: &Vec<ValidatorInfo>) -> (c: Vec<ValidatorInfo>)
    ensures
        infos_view(c@) == infos_view(v@),
{
    let mut c: Vec<ValidatorInfo> = Vec::new();
    let mut i: usize = 0;
    while i < v.len()
        invariant
            0 <= i <= v@.len(),
            c@.len() == i,
            forall|j: int| 0 <= j < i ==> info_view(#[trigger] c@[j]) == info_view(v@[j]),
        decreases v@.len() - i,
    {
        c.push(v[i].copy_info());
        i = i + 1;
    }
    assert(infos_view(c@) =~= infos_view(v@));
    c
}

/// Sum of the voting powers of a list of validators.
pub open spec fn power_sum(s: Seq<ValidatorInfo>) -> nat
    decreases s.len(),
{
    if s.len() == 0 {
        0
    } else {
        power_sum(s.drop_last()) + s.last().voting_power as nat
    }
}

/// Position of the first validator with address `a`, if any.
pub open spec fn first_with(s: Seq<ValidatorInfo>, a: Seq<u8>) -> Option<int>
    decreases s.len(),
{
    if s.len() == 0 {
        None
    } else if s[0].validator_address@ == a {
        Some(0)
    } else {
        match first_with(s.drop_first(), a) {
            Some(i) => Some(i + 1),
            None => None,
        }
    }
}

/// The first position is the one before which no validator has the address.
proof fn lemma_first_with(s: Seq<ValidatorInfo>, a: Seq<u8>, i: int)
    requires
        0 <= i <= s.len(),
        forall|j: int| 0 <= j < i ==> s[j].validator_address@ != a,
    ensures
        i < s.len() && s[i].validator_address@ == a ==> first_with(s, a) == Some(i),
        i == s.len() ==> first_with(s, a) is None,
    decreases s.len(),
{
    if s.len() > 0 && i > 0 {
        lemma_first_with(s.drop_first(), a, i - 1);
    }
}

/// The first position holds the address.
proof fn lemma_first_with_in_range(s: Seq<ValidatorInfo>, a: Seq<u8>)
    ensures
        first_with(s, a) matches Some(i) ==> 0 <= i < s.len() && s[i].validator_address@ == a,
    decreases s.len(),
{
    if s.len() > 0 {
        lemma_first_with_in_range(s.drop_first(), a);
    }
}

/// Removing a validator takes its power off the sum.
pub proof fn lemma_power_sum_remove(s: Seq<ValidatorInfo>, i: int)
    requires
        0 <= i < s.len(),
    ensures
        power_sum(s.remove(i)) + s[i].voting_power == power_sum(s),
    decreases s.len(),
{
    if i < s.len() - 1 {
        lemma_power_sum_remove(s.drop_last(), i);
        assert(s.remove(i).drop_last() =~= s.drop_last().remove(i));
    } else {
        assert(s.remove(i) =~= s.drop_last());
    }
}

/// A part of a list has at most the list's power.
proof fn lemma_power_sum_prefix(s: Seq<ValidatorInfo>, k: int)
    requires
        0 <= k <= s.len(),
    ensures
        power_sum(s.subrange(0, k)) <= power_sum(s),
    decreases s.len() - k,
{
    if k < s.len() {
        lemma_power_sum_prefix(s, k + 1);
        assert(s.subrange(0, k + 1).drop_last() =~= s.subrange(0, k));
    } else {
        assert(s.subrange(0, k) =~= s);
    }
}

/// Sum of the voting powers, computed.
fn sum_power(validators: &Vec<ValidatorInfo>) -> (t: u64)
    requires
        power_sum(validators@) <= u64::MAX,
    ensures
        t == power_sum(validators@),
{
    let mut t: u64 = 0;
    let mut i: usize = 0;
    while i < validators.len()
        invariant
            0 <= i <= validators@.len(),
            power_sum(validators@) <= u64::MAX,
            t == power_sum(validators@.subrange(0, i as int)),
        decreases validators@.len() - i,
    {
        proof {
            lemma_power_sum_prefix(validators@, i + 1);
            assert(validators@.subrange(0, i + 1).drop_last() =~= validators@.subrange(0, i as int));
        }
        t = t + validators[i].voting_power;
        i = i + 1;
    }
    assert(validators@.subrange(0, validators@.len() as int) =~= validators@);
    t
}

/// Position of the first validator with an address, searched.
fn position_of(validators: &Vec<ValidatorInfo>, address: &Blake2bHash) -> (r: Option<usize>)
    ensures
        match r {
            Some(i) => i < validators@.len() && first_with(validators@, address@) == Some(i as int),
            None => first_with(validators@, address@) is None,
        },
{
    let mut i: usize = 0;
    while i < validators.len()
        invariant
            0 <= i <= validators@.len(),
            forall|j: int| 0 <= j < i ==> validators@[j].validator_address@ != address@,
        decreases validators@.len() - i,
    {
        if hash_eq(&validators[i].validator_address, address) {
            proof {
                lemma_first_with(validators@, address@, i as int);
            }
            return Some(i);
        }
        i = i + 1;
    }
    proof {
        lemma_first_with(validators@, address@, i as int);
    }
    None
}

/// Validators with their total voting power.
#[derive(Debug)]
pub struct ValidatorSet {
    validators: Vec<ValidatorInfo>,
    total_voting_power: u64,
}

impl ValidatorSet {
    /// The total is the sum of the members' powers.
    #[verifier::type_invariant]
    spec fn wf(&self) -> bool {
        self.total_voting_power == power_sum(self.validators@)
    }

    /// The validators, in order.
    pub closed spec fn members(&self) -> Seq<ValidatorInfo> {
        self.validators@
    }

    /// The total the set keeps.
    pub closed spec fn recorded_total(&self) -> u64 {
        self.total_voting_power
    }

    /// Moves the members out, leaving the set empty.
    fn take_parts(&mut self) -> (r: (Vec<ValidatorInfo>, u64))
        ensures
            r.0@ == old(self).members(),
            r.1 == power_sum(r.0@),
            final(self).members().len() == 0,
    {
        proof {
            use_type_invariant(&*self);
        }
        let mut taken = ValidatorSet { validators: Vec::new(), total_voting_power: 0 };
        std::mem::swap(&mut taken, self);
        proof {
            use_type_invariant(&taken);
        }
        let ValidatorSet { validators, total_voting_power } = taken;
        (validators, total_voting_power)
    }

    /// A set of the given validators.
    pub fn new(validators: Vec<ValidatorInfo>) -> (s: Self)
        requires
            power_sum(validators@) <= u64::MAX,
        ensures
            s.members() == validators@,
    {
        let total_voting_power = sum_power(&validators);
        ValidatorSet { validators, total_voting_power }
    }

    /// Adds a validator at the end.
    pub fn add_validator(&mut self, validator: ValidatorInfo)
        requires
            power_sum(old(self).members()) + validator.voting_power <= u64::MAX,
        ensures
            final(self).members() == old(self).members().push(validator),
    {
        let (mut validators, total) = self.take_parts();
        let total = total + validator.voting_power;
        let ghost before = validators@;
        validators.push(validator);
        assert(validators@.drop_last() =~= before);
        *self = ValidatorSet { validators, total_voting_power: total };
    }

    /// Removes the first validator with the address, if any.
    pub fn remove_validator(&mut self, address: &Blake2bHash)
        ensures
            match first_with(old(self).members(), address@) {
                Some(i) => final(self).members() == old(self).members().remove(i),
                None => final(self).members() == old(self).members(),
            },
    {
        if let Some(pos) = position_of(&self.validators, address) {
            let (mut validators, total) = self.take_parts();
            let ghost before = validators@;
            let validator = validators.remove(pos);
            proof {
                lemma_power_sum_remove(before, pos as int);
            }
            let total = total - validator.voting_power;
            *self = ValidatorSet { validators, total_voting_power: total };
        }
    }

    /// The first validator with the address, if any.
    pub fn get_validator(&self, address: &Blake2bHash) -> (r: Option<&ValidatorInfo>)
        ensures
            match first_with(self.members(), address@) {
                Some(i) => r matches Some(v) && *v == self.members()[i],
                None => r is None,
            },
    {
        match position_of(&self.validators, address) {
            Some(i) => Some(&self.validators[i]),
            None => None,
        }
    }

    pub fn validators(&self) -> (r: &[ValidatorInfo])
        ensures
            r@ == self.members(),
    {
        self.validators.as_slice()
    }

    /// The sum of the members' voting powers.
    pub fn total_voting_power(&self) -> (t: u64)
        ensures
            t == self.recorded_total(),
            t == power_sum(self.members()),
    {
        proof {
            use_type_invariant(self);
        }
        self.total_voting_power
    }

    /// Replaces the members.
    pub fn update_validators(&mut self, new_validators: Vec<ValidatorInfo>)
        requires
            power_sum(new_validators@) <= u64::MAX,
        ensures
            final(self).members() == new_validators@,
    {
        let total = sum_power(&new_validators);
        *self = ValidatorSet { validators: new_validators, total_voting_power: total };
    }

    /// Closes an epoch; the members stay as they are.
    pub fn finalize_epoch(&mut self)
        ensures
            final(self).members() == old(self).members(),
    {
    }
}

} // verus!
