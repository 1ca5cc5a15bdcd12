//! Squad management service

use vstd::prelude::*;

use crate::entropy::{lemma_some_number_is_free, random_below, random_id, MAX_DRAWS};
use crate::models::{member_views, Id, Member, MemberView, Squad, SquadSettings, SquadView};
use crate::text::same_text;
use crate::time::Timestamp;

verus! {

/// Number of characters in a join code.
pub const JOIN_CODE_LEN: usize = 6;

/// The characters a join code is drawn from: capital letters and digits
/// without `I`, `O`, `0` and `1`.
pub const JOIN_CODE_ALPHABET: [char; 32] = [
    'A', 'B', 'C', 'D', 'E', 'F', 'G', 'H', 'J', 'K', 'L', 'M', 'N', 'P', 'Q', 'R',
    'S', 'T', 'U', 'V', 'W', 'X', 'Y', 'Z', '2', '3', '4', '5', '6', '7', '8', '9',
];

/// Number of join codes there are: 32 to the sixth.
pub const JOIN_CODE_COUNT: usize = 1_073_741_824;

#[derive(Clone, Copy, Debug, PartialEq, Eq, Structural)]
pub enum SquadError {
    SquadNotFound,
    InvalidJoinCode,
    MemberNotFound,
    NameTaken,
    NotLeader,
}

impl SquadError {
    /// The text of [`SquadError::message`] for each error.
    pub open spec fn message_text(self) -> Seq<char> {
        match self {
            SquadError::SquadNotFound => "Squad not found"@,
            SquadError::InvalidJoinCode => "Invalid join code"@,
            SquadError::MemberNotFound => "Member not found"@,
            SquadError::NameTaken => "Display name already taken"@,
            SquadError::NotLeader => "Only the leader can perform this action"@,
        }
    }

    /// What to tell a user about the error.
    pub fn message(&self) -> (text: String)
        ensures
            text@ == self.message_text(),
    {
        match self {
            SquadError::SquadNotFound => "Squad not found".to_owned(),
            SquadError::InvalidJoinCode => "Invalid join code".to_owned(),
            SquadError::MemberNotFound => "Member not found".to_owned(),
            SquadError::NameTaken => "Display name already taken".to_owned(),
            SquadError::NotLeader => "Only the leader can perform this action".to_owned(),
        }
    }
}

/// Whether `code` has the shape of a join code: six characters of the
/// alphabet.
pub open spec fn is_join_code(code: Seq<char>) -> bool {
    &&& code.len() == JOIN_CODE_LEN
    &&& forall|i: int| 0 <= i < code.len() ==> JOIN_CODE_ALPHABET@.contains(#[trigger] code[i])
}

/// The last `width` digits of `k` to the base 32, written with the
/// alphabet.
pub open spec fn code_digits(k: int, width: nat) -> Seq<char>
    decreases width,
{
    if width == 0 {
        Seq::empty()
    } else {
        code_digits(k / 32, (width - 1) as nat).push(JOIN_CODE_ALPHABET@[k % 32])
    }
}

/// The join code with the number `k`: the six digits of `k` to the base
/// 32, written with the alphabet.
pub open spec fn nth_join_code(k: int) -> Seq<char> {
    code_digits(k, JOIN_CODE_LEN as nat)
}

/// 32 to the power of `width`.
pub open spec fn code_count(width: nat) -> int
    decreases width,
{
    if width == 0 {
        1
    } else {
        32 * code_count((width - 1) as nat)
    }
}

/// The views of a list of squads, in order.
pub open spec fn squad_views(squads: Seq<Squad>) -> Seq<SquadView> {
    squads.map_values(|s: Squad| s@)
}

/// Whether some squad in `squads` has the identity `id`.
pub open spec fn has_squad(squads: Seq<SquadView>, id: Id) -> bool {
    exists|i: int| 0 <= i < squads.len() && (#[trigger] squads[i]).squad_id == id
}

/// The place of a squad with the identity `id`.
pub open spec fn squad_index(squads: Seq<SquadView>, id: Id) -> int {
    choose|i: int| 0 <= i < squads.len() && (#[trigger] squads[i]).squad_id == id
}

/// The squad with the identity `id`, if there is one.
pub open spec fn lookup(squads: Seq<SquadView>, id: Id) -> Option<SquadView> {
    if has_squad(squads, id) {
        Some(squads[squad_index(squads, id)])
    } else {
        None
    }
}

/// Whether some squad in `squads` owns the join code `code`.
pub open spec fn code_in_use(squads: Seq<SquadView>, code: Seq<char>) -> bool {
    exists|i: int| 0 <= i < squads.len() && (#[trigger] squads[i]).join_code == code
}

/// The place of a squad that owns the join code `code`.
pub open spec fn code_index(squads: Seq<SquadView>, code: Seq<char>) -> int {
    choose|i: int| 0 <= i < squads.len() && (#[trigger] squads[i]).join_code == code
}

/// The squad that owns the join code `code`, if there is one.
pub open spec fn lookup_code(squads: Seq<SquadView>, code: Seq<char>) -> Option<SquadView> {
    if code_in_use(squads, code) {
        Some(squads[code_index(squads, code)])
    } else {
        None
    }
}

/// Whether every join code there is belongs to a squad.
pub open spec fn codes_exhausted(squads: Seq<SquadView>) -> bool {
    forall|code: Seq<char>| is_join_code(code) ==> #[trigger] code_in_use(squads, code)
}

/// Whether some member in `members` has the identity `id`.
pub open spec fn has_member(members: Seq<MemberView>, id: Id) -> bool {
    exists|i: int| 0 <= i < members.len() && (#[trigger] members[i]).member_id == id
}

/// The place of the first member with the identity `id`.
pub open spec fn first_member(members: Seq<MemberView>, id: Id) -> int {
    choose|i: int|
        0 <= i < members.len() && (#[trigger] members[i]).member_id == id && forall|j: int|
            0 <= j < i ==> (#[trigger] members[j]).member_id != id
}

/// Whether some member of some squad has the identity `id`.
pub open spec fn member_known(squads: Seq<SquadView>, id: Id) -> bool {
    exists|i: int| 0 <= i < squads.len() && has_member((#[trigger] squads[i]).members, id)
}

/// The number of members of all squads together.
pub open spec fn total_members(squads: Seq<SquadView>) -> nat
    decreases squads.len(),
{
    if squads.len() == 0 {
        0
    } else {
        total_members(squads.drop_last()) + squads.last().members.len()
    }
}

/// The identities of the members of all squads, squad by squad.
pub open spec fn all_member_ids(squads: Seq<SquadView>) -> Seq<int>
    decreases squads.len(),
{
    if squads.len() == 0 {
        Seq::empty()
    } else {
        all_member_ids(squads.drop_last()) + squads.last().members.map_values(
            |m: MemberView| m.member_id as int,
        )
    }
}

/// Whether some member in `members` goes by `name`.
pub open spec fn name_taken(members: Seq<MemberView>, name: Seq<char>) -> bool {
    exists|i: int| 0 <= i < members.len() && (#[trigger] members[i]).display_name == name
}

/// What holds of every squad in the registry: its code is a join code, its
/// first member is its leader and its only leader, and no two members
/// share a display name.
pub open spec fn squad_wf(squad: SquadView) -> bool {
    &&& is_join_code(squad.join_code)
    &&& squad.members.len() >= 1
    &&& squad.members[0].is_leader
    &&& squad.members[0].member_id == squad.leader_id
    &&& forall|j: int| 1 <= j < squad.members.len() ==> !(#[trigger] squad.members[j]).is_leader
    &&& forall|i: int, j: int|
        0 <= i < j < squad.members.len() ==> (#[trigger] squad.members[i]).display_name != (
        #[trigger] squad.members[j]).display_name
}

/// What holds of the registry as a whole: every squad is well formed, and
/// no two squads share an identity or a join code.
#[verifier::opaque]
pub open spec fn registry_wf(squads: Seq<SquadView>) -> bool {
    &&& forall|i: int| 0 <= i < squads.len() ==> squad_wf(#[trigger] squads[i])
    &&& forall|i: int, j: int|
        0 <= i < j < squads.len() ==> (#[trigger] squads[i]).squad_id != (
        #[trigger] squads[j]).squad_id
    &&& forall|i: int, j: int|
        0 <= i < j < squads.len() ==> (#[trigger] squads[i]).join_code != (
        #[trigger] squads[j]).join_code
}

/// The member that founds a squad.
pub open spec fn founder(leader_id: Id, leader_name: Seq<char>, now: Timestamp) -> MemberView {
    MemberView {
        member_id: leader_id,
        display_name: leader_name,
        avatar_url: None,
        joined_at: now,
        is_leader: true,
    }
}

/// A squad as it is right after its creation.
pub open spec fn founding(
    name: Seq<char>,
    leader_name: Seq<char>,
    settings: Option<SquadSettings>,
    squad_id: Id,
    leader_id: Id,
    join_code: Seq<char>,
    now: Timestamp,
) -> SquadView {
    SquadView {
        squad_id,
        name,
        join_code,
        created_at: now,
        leader_id,
        members: seq![founder(leader_id, leader_name, now)],
        settings: match settings {
            Some(s) => s,
            None => SquadSettings::initial(),
        },
    }
}

/// The member that joins a squad later.
pub open spec fn recruit(member_id: Id, display_name: Seq<char>, now: Timestamp) -> MemberView {
    MemberView {
        member_id,
        display_name,
        avatar_url: None,
        joined_at: now,
        is_leader: false,
    }
}

/// `squad` with `member` added at the end of its members.
pub open spec fn with_member(squad: SquadView, member: MemberView) -> SquadView {
    SquadView { members: squad.members.push(member), ..squad }
}

/// `squad` without the member at the place `at`.
pub open spec fn without_member(squad: SquadView, at: int) -> SquadView {
    SquadView { members: squad.members.remove(at), ..squad }
}

/// Whether a squad can be created with these values: the code has the
/// shape of a join code, and neither it nor the identity is in use.
pub open spec fn can_create(squads: Seq<SquadView>, squad_id: Id, join_code: Seq<char>) -> bool {
    &&& is_join_code(join_code)
    &&& !code_in_use(squads, join_code)
    &&& !has_squad(squads, squad_id)
}

/// What joining by `code` under `name` answers.
pub open spec fn join_outcome(squads: Seq<SquadView>, code: Seq<char>, name: Seq<char>) -> Result<
    (),
    SquadError,
> {
    if !code_in_use(squads, code) {
        Err(SquadError::InvalidJoinCode)
    } else if name_taken(squads[code_index(squads, code)].members, name) {
        Err(SquadError::NameTaken)
    } else {
        Ok(())
    }
}

/// The registry after `member` has tried to join by `code`.
pub open spec fn after_join(squads: Seq<SquadView>, code: Seq<char>, member: MemberView) -> Seq<
    SquadView,
> {
    if join_outcome(squads, code, member.display_name) is Ok {
        let k = code_index(squads, code);
        squads.update(k, with_member(squads[k], member))
    } else {
        squads
    }
}

/// What a member's leaving answers.
pub open spec fn leave_outcome(squads: Seq<SquadView>, squad_id: Id, member_id: Id) -> Result<
    (),
    SquadError,
> {
    if !has_squad(squads, squad_id) {
        Err(SquadError::SquadNotFound)
    } else if !has_member(squads[squad_index(squads, squad_id)].members, member_id) {
        Err(SquadError::MemberNotFound)
    } else {
        Ok(())
    }
}

/// The registry after a member has tried to leave: without the whole squad
/// where the leader left, without that one member otherwise.
pub open spec fn after_leave(squads: Seq<SquadView>, squad_id: Id, member_id: Id) -> Seq<
    SquadView,
> {
    if leave_outcome(squads, squad_id, member_id) is Ok {
        let k = squad_index(squads, squad_id);
        let j = first_member(squads[k].members, member_id);
        if squads[k].members[j].is_leader {
            squads.remove(k)
        } else {
            squads.update(k, without_member(squads[k], j))
        }
    } else {
        squads
    }
}

/// What a request to delete a squad answers.
pub open spec fn delete_outcome(squads: Seq<SquadView>, squad_id: Id, member_id: Id) -> Result<
    (),
    SquadError,
> {
    if !has_squad(squads, squad_id) {
        Err(SquadError::SquadNotFound)
    } else if squads[squad_index(squads, squad_id)].leader_id != member_id {
        Err(SquadError::NotLeader)
    } else {
        Ok(())
    }
}

/// The registry after a request to delete a squad.
pub open spec fn after_delete(squads: Seq<SquadView>, squad_id: Id, member_id: Id) -> Seq<
    SquadView,
> {
    if delete_outcome(squads, squad_id, member_id) is Ok {
        squads.remove(squad_index(squads, squad_id))
    } else {
        squads
    }
}

/// The digits of a number that is not negative are characters of the
/// alphabet, as many as were asked for.
pub proof fn lemma_code_digits(k: int, width: nat)
    requires
        0 <= k,
    ensures
        code_digits(k, width).len() == width,
        forall|i: int|
            0 <= i < width ==> JOIN_CODE_ALPHABET@.contains(#[trigger] code_digits(k, width)[i]),
    decreases width,
{
    if width > 0 {
        lemma_code_digits(k / 32, (width - 1) as nat);
        let init = code_digits(k / 32, (width - 1) as nat);
        let all = code_digits(k, width);
        assert forall|i: int| 0 <= i < width implies JOIN_CODE_ALPHABET@.contains(
            #[trigger] all[i],
        ) by {
            if i < width - 1 {
                assert(all[i] == init[i]);
            } else {
                assert(all[i] == JOIN_CODE_ALPHABET@[k % 32]);
            }
        }
    }
}

/// Every text of `width` characters of the alphabet is the digits of a
/// number below 32 to the power of `width`.
pub proof fn lemma_digits_have_number(text: Seq<char>)
    requires
        forall|i: int| 0 <= i < text.len() ==> JOIN_CODE_ALPHABET@.contains(#[trigger] text[i]),
    ensures
        exists|k: int| 0 <= k < code_count(text.len()) && #[trigger] code_digits(k, text.len()) == text,
    decreases text.len(),
{
    if text.len() == 0 {
        assert(code_digits(0, 0) =~= text);
    } else {
        let init = text.drop_last();
        assert forall|i: int| 0 <= i < init.len() implies JOIN_CODE_ALPHABET@.contains(
            #[trigger] init[i],
        ) by {
            assert(init[i] == text[i]);
        }
        lemma_digits_have_number(init);
        let high = choose|k: int|
            0 <= k < code_count(init.len()) && #[trigger] code_digits(k, init.len()) == init;
        assert(JOIN_CODE_ALPHABET@.contains(text[text.len() - 1]));
        let low = choose|d: int| 0 <= d < 32 && JOIN_CODE_ALPHABET@[d] == text[text.len() - 1];
        let k = high * 32 + low;
        assert(k / 32 == high);
        assert(k % 32 == low);
        assert(code_digits(k, text.len()) =~= text);
    }
}

/// Every number below [`JOIN_CODE_COUNT`] is the number of a join code.
pub proof fn lemma_nth_join_code(k: int)
    requires
        0 <= k < JOIN_CODE_COUNT,
    ensures
        is_join_code(nth_join_code(k)),
{
    lemma_code_digits(k, JOIN_CODE_LEN as nat);
}

/// Every join code has a number below [`JOIN_CODE_COUNT`].
pub proof fn lemma_join_code_has_number(code: Seq<char>)
    requires
        is_join_code(code),
    ensures
        exists|k: int| 0 <= k < JOIN_CODE_COUNT && #[trigger] nth_join_code(k) == code,
{
    lemma_digits_have_number(code);
    assert(code_count(6) == JOIN_CODE_COUNT) by {
        reveal_with_fuel(code_count, 7);
    }
    let k = choose|k: int| 0 <= k < code_count(code.len()) && #[trigger] code_digits(k, code.len()) == code;
    assert(nth_join_code(k) == code);
}

/// A registry cannot hold all identities up to the number of its squads:
/// one of them is free.
pub proof fn lemma_some_id_is_free(squads: Seq<SquadView>)
    requires
        squads.len() < u128::MAX,
    ensures
        exists|id: int| 0 <= id <= squads.len() && !has_squad(squads, #[trigger] (id as Id)),
{
    let used = squads.map_values(|s: SquadView| s.squad_id as int);
    lemma_some_number_is_free(used);
    let free = choose|n: int| 0 <= n <= used.len() && !(#[trigger] used.contains(n));
    if has_squad(squads, free as Id) {
        let i = squad_index(squads, free as Id);
        assert(used[i] == free);
    }
    assert(!has_squad(squads, free as Id));
}

/// [`all_member_ids`] has one entry for each member, and holds the
/// identity of every member there is.
pub proof fn lemma_all_member_ids(squads: Seq<SquadView>)
    ensures
        all_member_ids(squads).len() == total_members(squads),
        forall|id: Id|
            #[trigger] member_known(squads, id) ==> all_member_ids(squads).contains(id as int),
    decreases squads.len(),
{
    if squads.len() > 0 {
        let init = squads.drop_last();
        let last = squads.last();
        lemma_all_member_ids(init);
        let head = all_member_ids(init);
        let tail = last.members.map_values(|m: MemberView| m.member_id as int);
        let all = all_member_ids(squads);
        assert forall|id: Id| #[trigger] member_known(squads, id) implies all.contains(
            id as int,
        ) by {
            let i = choose|i: int|
                0 <= i < squads.len() && has_member((#[trigger] squads[i]).members, id);
            if i < squads.len() - 1 {
                assert(init[i] == squads[i]);
                assert(member_known(init, id));
                let a = choose|a: int| 0 <= a < head.len() && head[a] == id as int;
                assert(all[a] == id as int);
            } else {
                let j = choose|j: int|
                    0 <= j < last.members.len() && (#[trigger] last.members[j]).member_id == id;
                assert(tail[j] == id as int);
                assert(all[head.len() + j] == id as int);
            }
        }
    }
}

/// A registry cannot hold all identities up to the number of its members:
/// one of them is free.
pub proof fn lemma_some_member_id_is_free(squads: Seq<SquadView>)
    requires
        total_members(squads) < u128::MAX,
    ensures
        exists|id: int|
            0 <= id <= total_members(squads) && !member_known(squads, #[trigger] (id as Id)),
{
    let used = all_member_ids(squads);
    lemma_all_member_ids(squads);
    lemma_some_number_is_free(used);
    let free = choose|n: int| 0 <= n <= used.len() && !(#[trigger] used.contains(n));
    assert(!member_known(squads, free as Id));
}

/// Every squad of a well-formed registry is well formed.
pub proof fn lemma_wf_squad(squads: Seq<SquadView>, k: int)
    requires
        registry_wf(squads),
        0 <= k < squads.len(),
    ensures
        squad_wf(squads[k]),
{
    reveal(registry_wf);
}

/// In a well-formed registry a squad is found at its own place, by its
/// identity and by its join code.
pub proof fn lemma_wf_index(squads: Seq<SquadView>, k: int)
    requires
        registry_wf(squads),
        0 <= k < squads.len(),
    ensures
        has_squad(squads, squads[k].squad_id),
        squad_index(squads, squads[k].squad_id) == k,
        code_in_use(squads, squads[k].join_code),
        code_index(squads, squads[k].join_code) == k,
{
    reveal(registry_wf);
    let i = squad_index(squads, squads[k].squad_id);
    if i < k {
        assert(squads[i].squad_id != squads[k].squad_id);
    } else if k < i {
        assert(squads[k].squad_id != squads[i].squad_id);
    }
    let c = code_index(squads, squads[k].join_code);
    if c < k {
        assert(squads[c].join_code != squads[k].join_code);
    } else if k < c {
        assert(squads[k].join_code != squads[c].join_code);
    }
}

/// Adding a well-formed squad whose identity and join code are unused
/// keeps the registry well formed.
pub proof fn lemma_push_keeps_wf(squads: Seq<SquadView>, squad: SquadView)
    requires
        registry_wf(squads),
        squad_wf(squad),
        !has_squad(squads, squad.squad_id),
        !code_in_use(squads, squad.join_code),
    ensures
        registry_wf(squads.push(squad)),
{
    reveal(registry_wf);
    let next = squads.push(squad);
    assert forall|i: int| 0 <= i < next.len() implies squad_wf(#[trigger] next[i]) by {
        if i < squads.len() {
            assert(next[i] == squads[i]);
        }
    }
    assert forall|i: int, j: int| 0 <= i < j < next.len() implies (#[trigger] next[i]).squad_id != (
    #[trigger] next[j]).squad_id && next[i].join_code != next[j].join_code by {
        assert(next[i] == squads[i]);
        if j < squads.len() {
            assert(next[j] == squads[j]);
        }
    }
}

/// Taking a squad out of a registry keeps the registry well formed.
pub proof fn lemma_remove_keeps_wf(squads: Seq<SquadView>, k: int)
    requires
        registry_wf(squads),
        0 <= k < squads.len(),
    ensures
        registry_wf(squads.remove(k)),
{
    reveal(registry_wf);
    let rest = squads.remove(k);
    assert forall|i: int| 0 <= i < rest.len() implies squad_wf(#[trigger] rest[i]) by {
        if i < k {
            assert(rest[i] == squads[i]);
        } else {
            assert(rest[i] == squads[i + 1]);
        }
    }
    assert forall|i: int, j: int| 0 <= i < j < rest.len() implies (#[trigger] rest[i]).squad_id != (
    #[trigger] rest[j]).squad_id && rest[i].join_code != rest[j].join_code by {
        let a = if i < k { i } else { i + 1 };
        let b = if j < k { j } else { j + 1 };
        assert(rest[i] == squads[a]);
        assert(rest[j] == squads[b]);
    }
}

/// Replacing a squad by a well-formed one with the same identity and the
/// same join code keeps the registry well formed.
pub proof fn lemma_update_keeps_wf(squads: Seq<SquadView>, k: int, squad: SquadView)
    requires
        registry_wf(squads),
        0 <= k < squads.len(),
        squad_wf(squad),
        squad.squad_id == squads[k].squad_id,
        squad.join_code == squads[k].join_code,
    ensures
        registry_wf(squads.update(k, squad)),
{
    reveal(registry_wf);
    let next = squads.update(k, squad);
    assert forall|i: int| 0 <= i < next.len() implies squad_wf(#[trigger] next[i]) by {
        if i != k {
            assert(next[i] == squads[i]);
        }
    }
    assert forall|i: int, j: int| 0 <= i < j < next.len() implies (#[trigger] next[i]).squad_id != (
    #[trigger] next[j]).squad_id && next[i].join_code != next[j].join_code by {
        assert(next[i].squad_id == squads[i].squad_id);
        assert(next[j].squad_id == squads[j].squad_id);
        assert(next[i].join_code == squads[i].join_code);
        assert(next[j].join_code == squads[j].join_code);
    }
}

/// A squad stays well formed when a member who is no leader joins under a
/// name that is not taken.
pub proof fn lemma_with_member_wf(squad: SquadView, member: MemberView)
    requires
        squad_wf(squad),
        !member.is_leader,
        !name_taken(squad.members, member.display_name),
    ensures
        squad_wf(with_member(squad, member)),
{
    let before = squad.members;
    let after = before.push(member);
    assert(after[0] == before[0]);
    assert forall|j: int| 1 <= j < after.len() implies !(#[trigger] after[j]).is_leader by {
        if j < before.len() {
            assert(after[j] == before[j]);
        }
    }
    assert forall|i: int, j: int| 0 <= i < j < after.len() implies (#[trigger] after[i]).display_name
        != (#[trigger] after[j]).display_name by {
        assert(after[i] == before[i]);
        if j < before.len() {
            assert(after[j] == before[j]);
        }
    }
}

/// A squad stays well formed when a member other than its first leaves.
pub proof fn lemma_without_member_wf(squad: SquadView, at: int)
    requires
        squad_wf(squad),
        1 <= at < squad.members.len(),
    ensures
        squad_wf(without_member(squad, at)),
{
    let before = squad.members;
    let after = before.remove(at);
    assert(after[0] == before[0]);
    assert forall|j: int| 1 <= j < after.len() implies !(#[trigger] after[j]).is_leader by {
        if j < at {
            assert(after[j] == before[j]);
        } else {
            assert(after[j] == before[j + 1]);
        }
    }
    assert forall|i: int, j: int| 0 <= i < j < after.len() implies (#[trigger] after[i]).display_name
        != (#[trigger] after[j]).display_name by {
        let a = if i < at { i } else { i + 1 };
        let b = if j < at { j } else { j + 1 };
        assert(after[i] == before[a]);
        assert(after[j] == before[b]);
    }
}

/// What joining does, spelled out for the place of the squad.
pub proof fn lemma_join_at(squads: Seq<SquadView>, k: int, member: MemberView)
    requires
        registry_wf(squads),
        0 <= k < squads.len(),
        !member.is_leader,
    ensures
        ({
            let code = squads[k].join_code;
            let name = member.display_name;
            &&& code_index(squads, code) == k
            &&& name_taken(squads[k].members, name) ==> join_outcome(squads, code, name) == Err::<
                (),
                SquadError,
            >(SquadError::NameTaken)
            &&& !name_taken(squads[k].members, name) ==> join_outcome(squads, code, name) is Ok
            &&& after_join(squads, code, member) == if name_taken(squads[k].members, name) {
                squads
            } else {
                squads.update(k, with_member(squads[k], member))
            }
            &&& registry_wf(after_join(squads, code, member))
        }),
{
    lemma_wf_index(squads, k);
    lemma_wf_squad(squads, k);
    if !name_taken(squads[k].members, member.display_name) {
        lemma_with_member_wf(squads[k], member);
        lemma_update_keeps_wf(squads, k, with_member(squads[k], member));
    }
}

/// What a member's leaving does, spelled out for the places of the squad
/// and of the member.
pub proof fn lemma_leave_at(squads: Seq<SquadView>, k: int, at: int)
    requires
        registry_wf(squads),
        0 <= k < squads.len(),
        0 <= at < squads[k].members.len(),
        first_member(squads[k].members, squads[k].members[at].member_id) == at,
    ensures
        ({
            let squad_id = squads[k].squad_id;
            let member_id = squads[k].members[at].member_id;
            &&& leave_outcome(squads, squad_id, member_id) is Ok
            &&& after_leave(squads, squad_id, member_id) == if squads[k].members[at].is_leader {
                squads.remove(k)
            } else {
                squads.update(k, without_member(squads[k], at))
            }
            &&& !squads[k].members[at].is_leader ==> at >= 1
            &&& registry_wf(after_leave(squads, squad_id, member_id))
        }),
{
    let member_id = squads[k].members[at].member_id;
    lemma_wf_index(squads, k);
    lemma_wf_squad(squads, k);
    assert(has_member(squads[k].members, member_id));
    if squads[k].members[at].is_leader {
        lemma_remove_keeps_wf(squads, k);
    } else {
        lemma_without_member_wf(squads[k], at);
        lemma_update_keeps_wf(squads, k, without_member(squads[k], at));
    }
}

/// What deleting a squad does, spelled out for the place of the squad.
pub proof fn lemma_delete_at(squads: Seq<SquadView>, k: int, member_id: Id)
    requires
        registry_wf(squads),
        0 <= k < squads.len(),
    ensures
        ({
            let squad_id = squads[k].squad_id;
            &&& squads[k].leader_id != member_id ==> delete_outcome(squads, squad_id, member_id)
                == Err::<(), SquadError>(SquadError::NotLeader)
            &&& squads[k].leader_id == member_id ==> delete_outcome(squads, squad_id, member_id)
                is Ok
            &&& after_delete(squads, squad_id, member_id) == if squads[k].leader_id == member_id {
                squads.remove(k)
            } else {
                squads
            }
            &&& registry_wf(after_delete(squads, squad_id, member_id))
        }),
{
    lemma_wf_index(squads, k);
    if squads[k].leader_id == member_id {
        lemma_remove_keeps_wf(squads, k);
    }
}

/// Among the members with the identity `id`, up to the place `upto`, one
/// comes first.
proof fn lemma_least_member(members: Seq<MemberView>, id: Id, upto: int)
    requires
        0 <= upto < members.len(),
        members[upto].member_id == id,
    ensures
        exists|i: int|
            0 <= i <= upto && (#[trigger] members[i]).member_id == id && forall|j: int|
                0 <= j < i ==> (#[trigger] members[j]).member_id != id,
    decreases upto,
{
    if exists|j: int| 0 <= j < upto && (#[trigger] members[j]).member_id == id {
        let j = choose|j: int| 0 <= j < upto && (#[trigger] members[j]).member_id == id;
        lemma_least_member(members, id, j);
    } else {
        assert(members[upto].member_id == id);
    }
}

/// Where a member has the identity `id`, [`first_member`] is the place of
/// the first such member.
pub proof fn lemma_first_member(members: Seq<MemberView>, id: Id)
    requires
        has_member(members, id),
    ensures
        0 <= first_member(members, id) < members.len(),
        members[first_member(members, id)].member_id == id,
        forall|j: int|
            0 <= j < first_member(members, id) ==> (#[trigger] members[j]).member_id != id,
{
    let w = choose|i: int| 0 <= i < members.len() && (#[trigger] members[i]).member_id == id;
    lemma_least_member(members, id, w);
}

/// Every join code in the registry is six characters of the alphabet, and
/// no two live squads share one.
pub proof fn lemma_join_codes_unique(squads: Seq<SquadView>, i: int, j: int)
    requires
        registry_wf(squads),
        0 <= i < squads.len(),
        0 <= j < squads.len(),
    ensures
        squads[i].join_code.len() == JOIN_CODE_LEN,
        forall|c: int|
            0 <= c < JOIN_CODE_LEN ==> JOIN_CODE_ALPHABET@.contains(
                #[trigger] squads[i].join_code[c],
            ),
        i != j ==> squads[i].join_code != squads[j].join_code,
        i != j ==> squads[i].squad_id != squads[j].squad_id,
{
    lemma_wf_squad(squads, i);
    lemma_wf_index(squads, i);
    lemma_wf_index(squads, j);
}

/// A squad has, right after its creation, exactly one member: its leader,
/// whose identity is the squad's `leader_id`.
pub proof fn lemma_created_squad_has_one_leader(
    name: Seq<char>,
    leader_name: Seq<char>,
    settings: Option<SquadSettings>,
    squad_id: Id,
    leader_id: Id,
    join_code: Seq<char>,
    now: Timestamp,
)
    ensures
        ({
            let squad = founding(name, leader_name, settings, squad_id, leader_id, join_code, now);
            &&& squad.members.len() == 1
            &&& squad.members[0].is_leader
            &&& squad.members[0].member_id == squad.leader_id
            &&& squad.leader_id == leader_id
            &&& squad.members[0].display_name == leader_name
        }),
{
}

/// In every live squad exactly one member is flagged leader, and that
/// member's identity is the squad's `leader_id`.
pub proof fn lemma_one_leader(squads: Seq<SquadView>, k: int)
    requires
        registry_wf(squads),
        0 <= k < squads.len(),
    ensures
        exists|l: int|
            {
                &&& 0 <= l < squads[k].members.len()
                &&& (#[trigger] squads[k].members[l]).is_leader
                &&& squads[k].members[l].member_id == squads[k].leader_id
                &&& forall|j: int|
                    0 <= j < squads[k].members.len() && j != l ==> !(
                    #[trigger] squads[k].members[j]).is_leader
            },
{
    lemma_wf_squad(squads, k);
    assert(squads[k].members[0].is_leader);
}

/// Joining by a code that no live squad owns fails with `InvalidJoinCode`;
/// joining under a display name that a member of the squad already has
/// fails with `NameTaken`. Either way the registry stays as it was.
pub proof fn lemma_join_rejected(squads: Seq<SquadView>, code: Seq<char>, member: MemberView)
    ensures
        !code_in_use(squads, code) ==> join_outcome(squads, code, member.display_name) == Err::<
            (),
            SquadError,
        >(SquadError::InvalidJoinCode),
        code_in_use(squads, code) && name_taken(
            squads[code_index(squads, code)].members,
            member.display_name,
        ) ==> join_outcome(squads, code, member.display_name) == Err::<(), SquadError>(
            SquadError::NameTaken,
        ),
        join_outcome(squads, code, member.display_name) is Err ==> after_join(squads, code, member)
            == squads,
{
}

/// When a member who is not the leader leaves, only that member goes: the
/// squad is still found by its identity and by its join code, with its
/// other members in their order, and every other squad is found as before.
pub proof fn lemma_member_leaves(squads: Seq<SquadView>, squad_id: Id, member_id: Id)
    requires
        registry_wf(squads),
        leave_outcome(squads, squad_id, member_id) is Ok,
        !squads[squad_index(squads, squad_id)].members[first_member(
            squads[squad_index(squads, squad_id)].members,
            member_id,
        )].is_leader,
    ensures
        ({
            let after = after_leave(squads, squad_id, member_id);
            let squad = squads[squad_index(squads, squad_id)];
            let at = first_member(squad.members, member_id);
            &&& 0 <= at < squad.members.len()
            &&& squad.members[at].member_id == member_id
            &&& lookup(after, squad_id) == Some(without_member(squad, at))
            &&& lookup_code(after, squad.join_code) == Some(without_member(squad, at))
            &&& without_member(squad, at).members == squad.members.remove(at)
            &&& forall|i: int|
                0 <= i < squad.members.len() && i != at ==> without_member(
                    squad,
                    at,
                ).members.contains(#[trigger] squad.members[i])
            &&& forall|id: Id| id != squad_id ==> #[trigger] lookup(after, id) == lookup(squads, id)
            &&& forall|code: Seq<char>|
                code != squad.join_code ==> #[trigger] lookup_code(after, code) == lookup_code(
                    squads,
                    code,
                )
        }),
{
    let k = squad_index(squads, squad_id);
    let squad = squads[k];
    lemma_first_member(squad.members, member_id);
    let at = first_member(squad.members, member_id);
    lemma_leave_at(squads, k, at);
    let after = after_leave(squads, squad_id, member_id);
    assert(after == squads.update(k, without_member(squad, at)));
    assert(after[k] == without_member(squad, at));
    lemma_wf_index(after, k);
    assert forall|i: int| 0 <= i < squad.members.len() && i != at implies without_member(
        squad,
        at,
    ).members.contains(#[trigger] squad.members[i]) by {
        let rest = squad.members.remove(at);
        if i < at {
            assert(rest[i] == squad.members[i]);
        } else {
            assert(rest[i - 1] == squad.members[i]);
        }
    }
    assert forall|id: Id| id != squad_id implies #[trigger] lookup(after, id) == lookup(
        squads,
        id,
    ) by {
        if has_squad(squads, id) {
            let i = squad_index(squads, id);
            lemma_wf_index(squads, i);
            assert(after[i] == squads[i]);
            lemma_wf_index(after, i);
        } else if has_squad(after, id) {
            let i = squad_index(after, id);
            assert(squads[i].squad_id == id);
        }
    }
    assert forall|code: Seq<char>| code != squad.join_code implies #[trigger] lookup_code(
        after,
        code,
    ) == lookup_code(squads, code) by {
        if code_in_use(squads, code) {
            let i = code_index(squads, code);
            lemma_wf_index(squads, i);
            assert(after[i] == squads[i]);
            lemma_wf_index(after, i);
        } else if code_in_use(after, code) {
            let i = code_index(after, code);
            assert(squads[i].join_code == code);
        }
    }
}

/// When the leader leaves, the squad is found no longer, neither by its
/// identity nor by the join code it had, and every other squad is found
/// as before.
pub proof fn lemma_leader_leaves(squads: Seq<SquadView>, squad_id: Id, member_id: Id)
    requires
        registry_wf(squads),
        leave_outcome(squads, squad_id, member_id) is Ok,
        squads[squad_index(squads, squad_id)].members[first_member(
            squads[squad_index(squads, squad_id)].members,
            member_id,
        )].is_leader,
    ensures
        ({
            let after = after_leave(squads, squad_id, member_id);
            let squad = squads[squad_index(squads, squad_id)];
            &&& lookup(after, squad_id) is None
            &&& lookup_code(after, squad.join_code) is None
            &&& forall|id: Id| id != squad_id ==> #[trigger] lookup(after, id) == lookup(squads, id)
            &&& forall|code: Seq<char>|
                code != squad.join_code ==> #[trigger] lookup_code(after, code) == lookup_code(
                    squads,
                    code,
                )
        }),
{
    let k = squad_index(squads, squad_id);
    let squad = squads[k];
    lemma_first_member(squad.members, member_id);
    let at = first_member(squad.members, member_id);
    lemma_leave_at(squads, k, at);
    lemma_removed_squad_is_gone(squads, k);
}

/// When the leader deletes the squad, it is found no longer, neither by
/// its identity nor by the join code it had, and every other squad is found
/// as before.
pub proof fn lemma_deleted_squad_is_gone(squads: Seq<SquadView>, squad_id: Id, member_id: Id)
    requires
        registry_wf(squads),
        delete_outcome(squads, squad_id, member_id) is Ok,
    ensures
        ({
            let after = after_delete(squads, squad_id, member_id);
            let squad = squads[squad_index(squads, squad_id)];
            &&& lookup(after, squad_id) is None
            &&& lookup_code(after, squad.join_code) is None
            &&& forall|id: Id| id != squad_id ==> #[trigger] lookup(after, id) == lookup(squads, id)
            &&& forall|code: Seq<char>|
                code != squad.join_code ==> #[trigger] lookup_code(after, code) == lookup_code(
                    squads,
                    code,
                )
        }),
{
    let k = squad_index(squads, squad_id);
    lemma_removed_squad_is_gone(squads, k);
}

/// Once a squad is taken out of a well-formed registry, neither its
/// identity nor its join code finds anything, and every other squad is
/// found as before.
pub proof fn lemma_removed_squad_is_gone(squads: Seq<SquadView>, k: int)
    requires
        registry_wf(squads),
        0 <= k < squads.len(),
    ensures
        ({
            let after = squads.remove(k);
            &&& lookup(after, squads[k].squad_id) is None
            &&& lookup_code(after, squads[k].join_code) is None
            &&& forall|id: Id|
                id != squads[k].squad_id ==> #[trigger] lookup(after, id) == lookup(squads, id)
            &&& forall|code: Seq<char>|
                code != squads[k].join_code ==> #[trigger] lookup_code(after, code) == lookup_code(
                    squads,
                    code,
                )
        }),
{
    let after = squads.remove(k);
    lemma_remove_keeps_wf(squads, k);
    lemma_wf_index(squads, k);
    if has_squad(after, squads[k].squad_id) {
        let i = squad_index(after, squads[k].squad_id);
        let a = if i < k { i } else { i + 1 };
        assert(after[i] == squads[a]);
        lemma_wf_index(squads, a);
    }
    if code_in_use(after, squads[k].join_code) {
        let i = code_index(after, squads[k].join_code);
        let a = if i < k { i } else { i + 1 };
        assert(after[i] == squads[a]);
        lemma_wf_index(squads, a);
    }
    assert forall|id: Id| id != squads[k].squad_id implies #[trigger] lookup(after, id) == lookup(
        squads,
        id,
    ) by {
        if has_squad(squads, id) {
            let i = squad_index(squads, id);
            lemma_wf_index(squads, i);
            let b = if i < k { i } else { i - 1 };
            assert(after[b] == squads[i]);
            lemma_wf_index(after, b);
        } else if has_squad(after, id) {
            let i = squad_index(after, id);
            let a = if i < k { i } else { i + 1 };
            assert(after[i] == squads[a]);
        }
    }
    assert forall|code: Seq<char>| code != squads[k].join_code implies #[trigger] lookup_code(
        after,
        code,
    ) == lookup_code(squads, code) by {
        if code_in_use(squads, code) {
            let i = code_index(squads, code);
            lemma_wf_index(squads, i);
            let b = if i < k { i } else { i - 1 };
            assert(after[b] == squads[i]);
            lemma_wf_index(after, b);
        } else if code_in_use(after, code) {
            let i = code_index(after, code);
            let a = if i < k { i } else { i + 1 };
            assert(after[i] == squads[a]);
        }
    }
}

/// Manages squads and membership
pub struct SquadManager {
    squads: Vec<Squad>,
}

impl View for SquadManager {
    type V = Seq<SquadView>;

    /// The live squads, oldest first.
    closed spec fn view(&self) -> Seq<SquadView> {
        squad_views(self.squads@)
    }
}

impl SquadManager {
    /// The invariant of the registry.
    pub open spec fn wf(&self) -> bool {
        registry_wf(self@)
    }

    pub fn new() -> (manager: SquadManager)
        ensures
            manager@ == Seq::<SquadView>::empty(),
            manager.wf(),
    {
        let manager = SquadManager { squads: Vec::new() };
        proof {
            reveal(registry_wf);
            assert(manager@ =~= Seq::<SquadView>::empty());
        }
        manager
    }

    /// The place of the squad with the identity `id`.
    fn find_by_id(&self, id: Id) -> (at: Option<usize>)
        requires
            self.wf(),
        ensures
            match at {
                Some(k) => k < self.squads@.len() && self@[k as int].squad_id == id,
                None => !has_squad(self@, id),
            },
    {
        let mut i: usize = 0;
        while i < self.squads.len()
            invariant
                i <= self.squads@.len(),
                self@.len() == self.squads@.len(),
                forall|j: int| 0 <= j < i ==> (#[trigger] self@[j]).squad_id != id,
            decreases self.squads@.len() - i,
        {
            if self.squads[i].squad_id == id {
                return Some(i);
            }
            i += 1;
        }
        None
    }

    /// The place of the squad that owns the join code `code`.
    fn find_by_code(&self, code: &str) -> (at: Option<usize>)
        requires
            self.wf(),
        ensures
            match at {
                Some(k) => k < self.squads@.len() && self@[k as int].join_code == code@,
                None => !code_in_use(self@, code@),
            },
    {
        let mut i: usize = 0;
        while i < self.squads.len()
            invariant
                i <= self.squads@.len(),
                self@.len() == self.squads@.len(),
                forall|j: int| 0 <= j < i ==> (#[trigger] self@[j]).join_code != code@,
            decreases self.squads@.len() - i,
        {
            if same_text(self.squads[i].join_code.as_str(), code) {
                return Some(i);
            }
            i += 1;
        }
        None
    }

    /// Get a squad by ID
    pub fn get_squad(&self, squad_id: &Id) -> (found: Option<&Squad>)
        requires
            self.wf(),
        ensures
            match found {
                Some(squad) => lookup(self@, *squad_id) == Some(squad@),
                None => lookup(self@, *squad_id) is None,
            },
    {
        match self.find_by_id(*squad_id) {
            Some(k) => {
                proof {
                    lemma_wf_index(self@, k as int);
                }
                Some(&self.squads[k])
            },
            None => None,
        }
    }

    /// Get a squad by join code
    pub fn get_squad_by_code(&self, join_code: &str) -> (found: Option<&Squad>)
        requires
            self.wf(),
        ensures
            match found {
                Some(squad) => lookup_code(self@, join_code@) == Some(squad@),
                None => lookup_code(self@, join_code@) is None,
            },
    {
        match self.find_by_code(join_code) {
            Some(k) => {
                proof {
                    lemma_wf_index(self@, k as int);
                }
                Some(&self.squads[k])
            },
            None => None,
        }
    }

    /// List all squads (for admin/debug)
    pub fn list_squads(&self) -> (all: Vec<&Squad>)
        ensures
            all@.len() == self@.len(),
            forall|i: int| 0 <= i < all@.len() ==> (#[trigger] all@[i])@ == self@[i],
    {
        let mut all: Vec<&Squad> = Vec::new();
        let mut i: usize = 0;
        while i < self.squads.len()
            invariant
                i <= self.squads@.len(),
                self@.len() == self.squads@.len(),
                all@.len() == i,
                forall|j: int| 0 <= j < i ==> (#[trigger] all@[j])@ == self@[j],
            decreases self.squads@.len() - i,
        {
            all.push(&self.squads[i]);
            i += 1;
        }
        all
    }

    /// Draws six characters of the alphabet.
    fn random_join_code() -> (code: String)
        ensures
            is_join_code(code@),
    {
        let mut code = String::new();
        let mut i: usize = 0;
        while i < JOIN_CODE_LEN
            invariant
                i <= JOIN_CODE_LEN,
                code@.len() == i,
                forall|j: int| 0 <= j < i ==> JOIN_CODE_ALPHABET@.contains(#[trigger] code@[j]),
            decreases JOIN_CODE_LEN - i,
        {
            let k = random_below(JOIN_CODE_ALPHABET.len());
            let ch = JOIN_CODE_ALPHABET[k];
            assert(JOIN_CODE_ALPHABET@.contains(ch)) by {
                assert(JOIN_CODE_ALPHABET@[k as int] == ch);
            }
            code.push(ch);
            i += 1;
        }
        code
    }

    /// Appends the last `width` digits of `k` to the base 32.
    fn push_code_digits(out: &mut String, k: usize, width: usize)
        ensures
            final(out)@ == old(out)@ + code_digits(k as int, width as nat),
        decreases width,
    {
        if width > 0 {
            Self::push_code_digits(out, k / 32, width - 1);
            out.push(JOIN_CODE_ALPHABET[k % 32]);
        }
        proof {
            assert(out@ =~= old(out)@ + code_digits(k as int, width as nat));
        }
    }

    /// The join code with the number `k`.
    fn join_code_number(k: usize) -> (code: String)
        ensures
            code@ == nth_join_code(k as int),
    {
        let mut code = String::new();
        Self::push_code_digits(&mut code, k, JOIN_CODE_LEN);
        assert(code@ =~= nth_join_code(k as int));
        code
    }

    /// The first join code, by number, that no live squad owns.
    pub fn first_free_join_code(&self) -> (code: Option<String>)
        requires
            self.wf(),
        ensures
            match code {
                Some(c) => {
                    &&& is_join_code(c@)
                    &&& !code_in_use(self@, c@)
                    &&& exists|k: int|
                        {
                            &&& 0 <= k < JOIN_CODE_COUNT
                            &&& c@ == #[trigger] nth_join_code(k)
                            &&& forall|j: int|
                                0 <= j < k ==> code_in_use(self@, #[trigger] nth_join_code(j))
                        }
                },
                None => codes_exhausted(self@),
            },
    {
        let mut k: usize = 0;
        while k < JOIN_CODE_COUNT
            invariant
                self.wf(),
                k <= JOIN_CODE_COUNT,
                forall|j: int| 0 <= j < k ==> code_in_use(self@, #[trigger] nth_join_code(j)),
            decreases JOIN_CODE_COUNT - k,
        {
            let code = Self::join_code_number(k);
            if self.find_by_code(code.as_str()).is_none() {
                proof {
                    lemma_nth_join_code(k as int);
                    assert(code@ == nth_join_code(k as int));
                }
                return Some(code);
            }
            k += 1;
        }
        proof {
            assert forall|code: Seq<char>| is_join_code(code) implies #[trigger] code_in_use(
                self@,
                code,
            ) by {
                lemma_join_code_has_number(code);
                let j = choose|j: int| 0 <= j < JOIN_CODE_COUNT && #[trigger] nth_join_code(j) == code;
                assert(code_in_use(self@, nth_join_code(j)));
            }
        }
        None
    }

    /// Generate a unique 6-character join code
    ///
    /// Draws codes until one is unused; after [`MAX_DRAWS`] draws the
    /// unused codes are searched in the order of their numbers. `None`
    /// means that every join code there is belongs to a squad.
    fn generate_join_code(&self) -> (code: Option<String>)
        requires
            self.wf(),
        ensures
            match code {
                Some(c) => is_join_code(c@) && !code_in_use(self@, c@),
                None => codes_exhausted(self@),
            },
    {
        let mut draws: usize = 0;
        while draws < MAX_DRAWS
            invariant
                self.wf(),
                draws <= MAX_DRAWS,
            decreases MAX_DRAWS - draws,
        {
            let code = Self::random_join_code();
            if self.find_by_code(code.as_str()).is_none() {
                return Some(code);
            }
            draws += 1;
        }
        self.first_free_join_code()
    }

    /// The least identity that no live squad has.
    pub fn first_free_id(&self) -> (id: Id)
        requires
            self.wf(),
        ensures
            !has_squad(self@, id),
            forall|j: int| 0 <= j < id ==> has_squad(self@, #[trigger] (j as Id)),
            id <= self@.len(),
    {
        let count = self.squads.len();
        let mut id: u128 = 0;
        while id <= count as u128
            invariant
                self.wf(),
                count == self@.len(),
                id <= count + 1,
                forall|j: int| 0 <= j < id ==> has_squad(self@, #[trigger] (j as Id)),
            decreases count + 1 - id,
        {
            if self.find_by_id(id).is_none() {
                return id;
            }
            id += 1;
        }
        proof {
            lemma_some_id_is_free(self@);
        }
        id
    }

    /// Draws an identity that no live squad has.
    ///
    /// After [`MAX_DRAWS`] draws that were all in use, the least unused
    /// identity is taken.
    fn generate_squad_id(&self) -> (id: Id)
        requires
            self.wf(),
        ensures
            !has_squad(self@, id),
    {
        let mut draws: usize = 0;
        while draws < MAX_DRAWS
            invariant
                self.wf(),
                draws <= MAX_DRAWS,
            decreases MAX_DRAWS - draws,
        {
            let id = random_id();
            if self.find_by_id(id).is_none() {
                return id;
            }
            draws += 1;
        }
        self.first_free_id()
    }

    /// Whether some member of some squad has the identity `id`.
    fn knows_member(&self, id: Id) -> (known: bool)
        ensures
            known == member_known(self@, id),
    {
        let mut i: usize = 0;
        while i < self.squads.len()
            invariant
                i <= self.squads@.len(),
                self@.len() == self.squads@.len(),
                forall|j: int| 0 <= j < i ==> !has_member((#[trigger] self@[j]).members, id),
            decreases self.squads@.len() - i,
        {
            if position_of(&self.squads[i].members, id).is_some() {
                assert(has_member(self@[i as int].members, id));
                return true;
            }
            i += 1;
        }
        false
    }

    /// The number of members of all squads together.
    pub fn member_count(&self) -> (total: u128)
        ensures
            total == total_members(self@),
            total < u128::MAX,
    {
        let mut total: u128 = 0;
        let mut i: usize = 0;
        proof {
            assert(self@.take(0) =~= Seq::<SquadView>::empty());
        }
        while i < self.squads.len()
            invariant
                i <= self.squads@.len(),
                self@.len() == self.squads@.len(),
                total == total_members(self@.take(i as int)),
                total <= i * usize::MAX,
            decreases self.squads@.len() - i,
        {
            proof {
                assert(self@.take(i + 1).drop_last() =~= self@.take(i as int));
                assert(self@.take(i + 1).last() == self@[i as int]);
                assert((i + 1) * usize::MAX == i * usize::MAX + usize::MAX) by (nonlinear_arith);
                assert((i + 1) * usize::MAX < u128::MAX) by (nonlinear_arith)
                    requires
                        i + 1 <= usize::MAX,
                        usize::MAX <= 0xffff_ffff_ffff_ffff,
                ;
            }
            total = total + self.squads[i].members.len() as u128;
            i += 1;
        }
        proof {
            assert(self@.take(self@.len() as int) =~= self@);
            assert(i * usize::MAX < u128::MAX) by (nonlinear_arith)
                requires
                    i <= usize::MAX,
                    usize::MAX <= 0xffff_ffff_ffff_ffff,
            ;
        }
        total
    }

    /// The least identity that no member of any squad has.
    pub fn first_free_member_id(&self) -> (id: Id)
        ensures
            !member_known(self@, id),
            forall|j: int| 0 <= j < id ==> member_known(self@, #[trigger] (j as Id)),
            id <= total_members(self@),
    {
        let count = self.member_count();
        let mut id: u128 = 0;
        while id <= count
            invariant
                count == total_members(self@),
                count < u128::MAX,
                id <= count + 1,
                forall|j: int| 0 <= j < id ==> member_known(self@, #[trigger] (j as Id)),
            decreases count + 1 - id,
        {
            if !self.knows_member(id) {
                return id;
            }
            id += 1;
        }
        proof {
            lemma_some_member_id_is_free(self@);
        }
        id
    }

    /// Draws an identity that no member of any squad has.
    ///
    /// After [`MAX_DRAWS`] draws that were all in use, the least unused
    /// identity is taken.
    fn generate_member_id(&self) -> (id: Id)
        ensures
            !member_known(self@, id),
    {
        let mut draws: usize = 0;
        while draws < MAX_DRAWS
            invariant
                draws <= MAX_DRAWS,
            decreases MAX_DRAWS - draws,
        {
            let id = random_id();
            if !self.knows_member(id) {
                return id;
            }
            draws += 1;
        }
        self.first_free_member_id()
    }

    /// Create a new squad from values that the caller has drawn.
    ///
    /// The squad is stored if `join_code` has the shape of a join code and
    /// neither it nor `squad_id` is in use; otherwise nothing changes.
    pub fn create_squad_with(
        &mut self,
        name: String,
        leader_name: String,
        settings: Option<SquadSettings>,
        squad_id: Id,
        leader_id: Id,
        join_code: String,
        now: Timestamp,
    ) -> (created: Option<(Squad, Id)>)
        requires
            old(self).wf(),
        ensures
            final(self).wf(),
            match created {
                Some((squad, leader)) => {
                    &&& can_create(old(self)@, squad_id, join_code@)
                    &&& squad@ == founding(
                        name@,
                        leader_name@,
                        settings,
                        squad_id,
                        leader_id,
                        join_code@,
                        now,
                    )
                    &&& leader == leader_id
                    &&& final(self)@ == old(self)@.push(squad@)
                },
                None => !can_create(old(self)@, squad_id, join_code@) && final(self)@ == old(
                    self,
                )@,
            },
    {
        if !is_valid_join_code(join_code.as_str()) {
            return None;
        }
        if self.find_by_code(join_code.as_str()).is_some() {
            return None;
        }
        if self.find_by_id(squad_id).is_some() {
            return None;
        }
        let leader = Member {
            member_id: leader_id,
            display_name: leader_name,
            avatar_url: None,
            joined_at: now,
            is_leader: true,
        };
        let mut members: Vec<Member> = Vec::new();
        members.push(leader);
        let squad = Squad {
            squad_id,
            name,
            join_code,
            created_at: now,
            leader_id,
            members,
            settings: match settings {
                Some(s) => s,
                None => SquadSettings::default(),
            },
        };
        let copy = squad.clone();
        proof {
            assert(squad@.members =~= seq![founder(leader_id, leader_name@, now)]);
            assert(squad_wf(squad@));
            lemma_push_keeps_wf(self@, squad@);
            assert(squad_views(self.squads@.push(squad)) =~= squad_views(self.squads@).push(
                squad@,
            ));
        }
        self.squads.push(squad);
        Some((copy, leader_id))
    }

    /// Create a new squad
    ///
    /// The identities, the join code and the time of creation are drawn
    /// here: an identity that no squad has, one that no member has, and a
    /// join code that no squad owns. The squad is created unless every join code there is belongs
    /// to a squad; the registry is then unchanged.
    pub fn create_squad(
        &mut self,
        name: String,
        leader_name: String,
        settings: Option<SquadSettings>,
    ) -> (created: Option<(Squad, Id)>)
        requires
            old(self).wf(),
        ensures
            final(self).wf(),
            created is Some <==> !codes_exhausted(old(self)@),
            match created {
                Some((squad, leader)) => {
                    &&& can_create(old(self)@, squad@.squad_id, squad@.join_code)
                    &&& squad@ == founding(
                        name@,
                        leader_name@,
                        settings,
                        squad@.squad_id,
                        leader,
                        squad@.join_code,
                        squad@.created_at,
                    )
                    &&& !member_known(old(self)@, leader)
                    &&& squad@.created_at.in_unix_range()
                    &&& final(self)@ == old(self)@.push(squad@)
                },
                None => final(self)@ == old(self)@,
            },
    {
        let squad_id = self.generate_squad_id();
        let leader_id = self.generate_member_id();
        let join_code = match self.generate_join_code() {
            Some(code) => code,
            None => {
                return None;
            },
        };
        let now = Timestamp::now();
        assert(code_in_use(self@, join_code@) || !codes_exhausted(self@));
        self.create_squad_with(name, leader_name, settings, squad_id, leader_id, join_code, now)
    }

    /// Join a squad with an identity that the caller has drawn.
    pub fn join_squad_with(
        &mut self,
        join_code: &str,
        display_name: String,
        member_id: Id,
        now: Timestamp,
    ) -> (joined: Result<(Squad, Id), SquadError>)
        requires
            old(self).wf(),
        ensures
            final(self).wf(),
            final(self)@ == after_join(
                old(self)@,
                join_code@,
                recruit(member_id, display_name@, now),
            ),
            match joined {
                Ok((squad, id)) => {
                    &&& join_outcome(old(self)@, join_code@, display_name@) is Ok
                    &&& id == member_id
                    &&& squad@ == with_member(
                        old(self)@[code_index(old(self)@, join_code@)],
                        recruit(member_id, display_name@, now),
                    )
                },
                Err(e) => join_outcome(old(self)@, join_code@, display_name@) == Err::<
                    (),
                    SquadError,
                >(e),
            },
    {
        let k = match self.find_by_code(join_code) {
            Some(k) => k,
            None => {
                return Err(SquadError::InvalidJoinCode);
            },
        };
        proof {
            lemma_join_at(old(self)@, k as int, recruit(member_id, display_name@, now));
        }
        // Check if name is taken
        if name_in_use(&self.squads[k].members, display_name.as_str()) {
            return Err(SquadError::NameTaken);
        }
        let member = Member {
            member_id,
            display_name,
            avatar_url: None,
            joined_at: now,
            is_leader: false,
        };
        proof {
            assert(member@ == recruit(member_id, display_name@, now));
            assert(member_views(self.squads@[k as int].members@.push(member)) =~= member_views(
                self.squads@[k as int].members@,
            ).push(member@));
        }
        self.squads[k].members.push(member);
        let copy = self.squads[k].clone();
        proof {
            assert(copy@ == with_member(
                old(self)@[k as int],
                recruit(member_id, display_name@, now),
            ));
            assert(self@ =~= old(self)@.update(k as int, copy@));
        }
        Ok((copy, member_id))
    }

    /// Join a squad
    ///
    /// The new member's identity, which no member of any squad has, and the
    /// time of joining are drawn here.
    pub fn join_squad(&mut self, join_code: &str, display_name: String) -> (joined: Result<
        (Squad, Id),
        SquadError,
    >)
        requires
            old(self).wf(),
        ensures
            final(self).wf(),
            match joined {
                Ok((squad, id)) => {
                    let member = recruit(id, display_name@, squad@.members.last().joined_at);
                    &&& join_outcome(old(self)@, join_code@, display_name@) is Ok
                    &&& !member_known(old(self)@, id)
                    &&& member.joined_at.in_unix_range()
                    &&& squad@ == with_member(
                        old(self)@[code_index(old(self)@, join_code@)],
                        member,
                    )
                    &&& final(self)@ == after_join(old(self)@, join_code@, member)
                },
                Err(e) => {
                    &&& join_outcome(old(self)@, join_code@, display_name@) == Err::<
                        (),
                        SquadError,
                    >(e)
                    &&& final(self)@ == old(self)@
                },
            },
    {
        let member_id = self.generate_member_id();
        let now = Timestamp::now();
        self.join_squad_with(join_code, display_name, member_id, now)
    }

    /// Leave a squad
    ///
    /// When the leader leaves, the squad goes with them.
    pub fn leave_squad(&mut self, squad_id: &Id, member_id: &Id) -> (left: Result<(), SquadError>)
        requires
            old(self).wf(),
        ensures
            final(self).wf(),
            left == leave_outcome(old(self)@, *squad_id, *member_id),
            final(self)@ == after_leave(old(self)@, *squad_id, *member_id),
    {
        let k = match self.find_by_id(*squad_id) {
            Some(k) => k,
            None => {
                return Err(SquadError::SquadNotFound);
            },
        };
        proof {
            lemma_wf_index(old(self)@, k as int);
        }
        let idx = match position_of(&self.squads[k].members, *member_id) {
            Some(idx) => idx,
            None => {
                return Err(SquadError::MemberNotFound);
            },
        };
        proof {
            lemma_leave_at(old(self)@, k as int, idx as int);
        }
        // If leader leaves, delete the squad
        if self.squads[k].members[idx].is_leader {
            self.drop_squad(k);
        } else {
            self.drop_member(k, idx);
        }
        Ok(())
    }

    /// Takes out the squad at the place `k`.
    fn drop_squad(&mut self, k: usize)
        requires
            k < old(self)@.len(),
        ensures
            final(self)@ == old(self)@.remove(k as int),
    {
        proof {
            assert(squad_views(self.squads@.remove(k as int)) =~= squad_views(
                self.squads@,
            ).remove(k as int));
        }
        self.squads.remove(k);
    }

    /// Takes the member at the place `at` out of the squad at the place `k`.
    fn drop_member(&mut self, k: usize, at: usize)
        requires
            k < old(self)@.len(),
            at < old(self)@[k as int].members.len(),
        ensures
            final(self)@ == old(self)@.update(
                k as int,
                without_member(old(self)@[k as int], at as int),
            ),
    {
        proof {
            assert(member_views(self.squads@[k as int].members@.remove(at as int))
                =~= member_views(self.squads@[k as int].members@).remove(at as int));
        }
        self.squads[k].members.remove(at);
        proof {
            assert(self.squads@[k as int]@ == without_member(old(self)@[k as int], at as int));
            assert(self@ =~= old(self)@.update(
                k as int,
                without_member(old(self)@[k as int], at as int),
            ));
        }
    }

    /// Delete a squad (leader only)
    pub fn delete_squad(&mut self, squad_id: &Id, member_id: &Id) -> (deleted: Result<
        (),
        SquadError,
    >)
        requires
            old(self).wf(),
        ensures
            final(self).wf(),
            deleted == delete_outcome(old(self)@, *squad_id, *member_id),
            final(self)@ == after_delete(old(self)@, *squad_id, *member_id),
    {
        let k = match self.find_by_id(*squad_id) {
            Some(k) => k,
            None => {
                return Err(SquadError::SquadNotFound);
            },
        };
        proof {
            lemma_delete_at(old(self)@, k as int, *member_id);
        }
        if self.squads[k].leader_id != *member_id {
            return Err(SquadError::NotLeader);
        }
        self.drop_squad(k);
        Ok(())
    }
}

/// Whether some member in `members` goes by `name`.
fn name_in_use(members: &Vec<Member>, name: &str) -> (taken: bool)
    ensures
        taken == name_taken(member_views(members@), name@),
{
    let mut i: usize = 0;
    while i < members.len()
        invariant
            i <= members@.len(),
            forall|j: int|
                0 <= j < i ==> (#[trigger] member_views(members@)[j]).display_name != name@,
        decreases members@.len() - i,
    {
        if same_text(members[i].display_name.as_str(), name) {
            assert(member_views(members@)[i as int].display_name == name@);
            return true;
        }
        i += 1;
    }
    false
}

/// The place of the first member with the identity `id`.
pub fn position_of(members: &Vec<Member>, id: Id) -> (at: Option<usize>)
    ensures
        match at {
            Some(j) => j < members@.len() && member_views(members@)[j as int].member_id == id
                && first_member(member_views(members@), id) == j,
            None => !has_member(member_views(members@), id),
        },
{
    let mut i: usize = 0;
    while i < members.len()
        invariant
            i <= members@.len(),
            forall|j: int| 0 <= j < i ==> (#[trigger] member_views(members@)[j]).member_id != id,
        decreases members@.len() - i,
    {
        if members[i].member_id == id {
            assert(member_views(members@)[i as int].member_id == id);
            return Some(i);
        }
        i += 1;
    }
    None
}

/// Whether `code` has the shape of a join code.
pub fn is_valid_join_code(code: &str) -> (valid: bool)
    ensures
        valid == is_join_code(code@),
{
    if code.unicode_len() != JOIN_CODE_LEN {
        return false;
    }
    let mut i: usize = 0;
    while i < JOIN_CODE_LEN
        invariant
            i <= JOIN_CODE_LEN,
            code@.len() == JOIN_CODE_LEN,
            forall|j: int| 0 <= j < i ==> JOIN_CODE_ALPHABET@.contains(#[trigger] code@[j]),
        decreases JOIN_CODE_LEN - i,
    {
        if !in_alphabet(code.get_char(i)) {
            return false;
        }
        i += 1;
    }
    true
}

/// Whether `ch` is one of the characters of a join code.
fn in_alphabet(ch: char) -> (found: bool)
    ensures
        found == JOIN_CODE_ALPHABET@.contains(ch),
{
    let mut k: usize = 0;
    while k < JOIN_CODE_ALPHABET.len()
        invariant
            k <= JOIN_CODE_ALPHABET@.len(),
            forall|j: int| 0 <= j < k ==> JOIN_CODE_ALPHABET@[j] != ch,
        decreases JOIN_CODE_ALPHABET@.len() - k,
    {
        if JOIN_CODE_ALPHABET[k] == ch {
            return true;
        }
        k += 1;
    }
    false
}

} // verus!
