//! The verification table: the single mutable store of per-identity records,
//! owned by the authority task, and the operations the message catalog maps
//! onto it.

use crate::record::CODE_MAX;
use crate::record::CODE_MIN;
use crate::record::CODE_TTL_MILLIS;
use crate::record::UserState;
use crate::record::VerifyState;
use crate::text::code_message;
use crate::text::connect_code_message;
use crate::text::pending_message;
use crate::text::pending_reply;
use vstd::prelude::*;

verus! {

/// Every record is well-formed; identities, linked accounts and outstanding
/// codes are each unique across the table.
pub open spec fn table_wf(s: Seq<UserState>) -> bool {
    &&& forall|i: int| 0 <= i < s.len() ==> (#[trigger] s[i]).wf()
    &&& forall|i: int, j: int|
        0 <= i < s.len() && 0 <= j < s.len() && i != j ==> (#[trigger] s[i]).uuid@ != (
        #[trigger] s[j]).uuid@
    &&& forall|i: int, j: int|
        0 <= i < s.len() && 0 <= j < s.len() && i != j && (#[trigger] s[i]).discord_id is Some
            ==> s[i].discord_id != (#[trigger] s[j]).discord_id
    &&& forall|i: int, j: int|
        0 <= i < s.len() && 0 <= j < s.len() && i != j && (#[trigger] s[i]).verify_code is Some
            ==> s[i].verify_code != (#[trigger] s[j]).verify_code
}

/// Some record carries this identity.
pub open spec fn has_uuid(s: Seq<UserState>, uuid: Seq<char>) -> bool {
    exists|i: int| 0 <= i < s.len() && (#[trigger] s[i]).uuid@ == uuid
}

/// The index of the record carrying this identity.
pub open spec fn uuid_index(s: Seq<UserState>, uuid: Seq<char>) -> int {
    choose|i: int| 0 <= i < s.len() && (#[trigger] s[i]).uuid@ == uuid
}

/// Some record is linked to this chat account.
pub open spec fn has_discord(s: Seq<UserState>, id: u64) -> bool {
    exists|i: int| 0 <= i < s.len() && (#[trigger] s[i]).discord_id == Some(id)
}

/// The index of the record linked to this chat account.
pub open spec fn discord_index(s: Seq<UserState>, id: u64) -> int {
    choose|i: int| 0 <= i < s.len() && (#[trigger] s[i]).discord_id == Some(id)
}

/// Some record holds this outstanding code.
pub open spec fn has_live_code(s: Seq<UserState>, code: i32) -> bool {
    exists|i: int| 0 <= i < s.len() && (#[trigger] s[i]).verify_code == Some(code)
}

/// The index of the record holding this outstanding code.
pub open spec fn code_index(s: Seq<UserState>, code: i32) -> int {
    choose|i: int| 0 <= i < s.len() && (#[trigger] s[i]).verify_code == Some(code)
}

/// A record survives the expiry sweep at time `now`.
pub open spec fn live(u: UserState, now: u128) -> bool {
    u.code_expires is Some ==> u.code_expires->0 > now
}

/// A record is written to durable storage: only claimed records are.
pub open spec fn durable(u: UserState) -> bool {
    !(u.verify_state is New)
}

/// What the table looks like after the expiry sweep at time `now`.
pub open spec fn live_records(s: Seq<UserState>, now: u128) -> Seq<UserState> {
    s.filter(|u: UserState| live(u, now))
}

/// The part of the table that a snapshot writes out.
pub open spec fn durable_records(s: Seq<UserState>) -> Seq<UserState> {
    s.filter(|u: UserState| durable(u))
}

/// Appending one element filters to the old result, plus the element when it
/// qualifies.
proof fn lemma_filter_push<A>(t: Seq<A>, x: A, pred: spec_fn(A) -> bool)
    ensures
        t.push(x).filter(pred) == (if pred(x) {
            t.filter(pred).push(x)
        } else {
            t.filter(pred)
        }),
{
    reveal(Seq::filter);
    assert(t.push(x).drop_last() =~= t);
    assert(t.push(x).last() == x);
}

/// Filtering keeps the table invariant: the survivors are a subsequence, so
/// well-formedness and the three uniqueness properties carry over.
pub proof fn lemma_table_wf_filter(s: Seq<UserState>, pred: spec_fn(UserState) -> bool)
    requires
        table_wf(s),
    ensures
        table_wf(s.filter(pred)),
        forall|k: int| 0 <= k < s.filter(pred).len() ==> s.contains(#[trigger] s.filter(pred)[k]),
    decreases s.len(),
{
    reveal(Seq::filter);
    if s.len() == 0 {
    } else {
        let s0 = s.drop_last();
        let x = s.last();
        assert(table_wf(s0)) by {
            assert(forall|i: int| 0 <= i < s0.len() ==> s0[i] == s[i]);
        }
        lemma_table_wf_filter(s0, pred);
        assert(forall|k: int|
            0 <= k < s0.filter(pred).len() ==> s.contains(#[trigger] s0.filter(pred)[k])) by {
            assert forall|k: int| 0 <= k < s0.filter(pred).len() implies s.contains(
                #[trigger] s0.filter(pred)[k],
            ) by {
                let e = s0.filter(pred)[k];
                assert(s0.contains(e));
                let j = choose|j: int| 0 <= j < s0.len() && s0[j] == e;
                assert(s[j] == e);
            }
        }
        if pred(x) {
            assert(s.filter(pred) == s0.filter(pred).push(x));
            assert(s.contains(x)) by {
                assert(s[s.len() - 1] == x);
            }
            let f = s.filter(pred);
            assert forall|i: int, j: int|
                0 <= i < f.len() && 0 <= j < f.len() && i != j implies (#[trigger] f[i]).uuid@ != (
            #[trigger] f[j]).uuid@ && ((#[trigger] f[i]).discord_id is Some ==> f[i].discord_id
                != f[j].discord_id) && ((#[trigger] f[i]).verify_code is Some ==> f[i].verify_code
                != f[j].verify_code) by {
                let f0 = s0.filter(pred);
                if i < f0.len() && j < f0.len() {
                } else if i < f0.len() && j == f0.len() {
                    let e = f0[i];
                    assert(s0.contains(e));
                    let m = choose|m: int| 0 <= m < s0.len() && s0[m] == e;
                    assert(s[m] == e && s[s.len() - 1] == x && m != s.len() - 1);
                } else if j < f0.len() && i == f0.len() {
                    let e = f0[j];
                    assert(s0.contains(e));
                    let m = choose|m: int| 0 <= m < s0.len() && s0[m] == e;
                    assert(s[m] == e && s[s.len() - 1] == x && m != s.len() - 1);
                }
            }
            assert(forall|i: int| 0 <= i < f.len() ==> (#[trigger] f[i]).wf()) by {
                assert(forall|i: int| 0 <= i < f.len() - 1 ==> f[i] == s0.filter(pred)[i]);
                assert(f[f.len() - 1] == x && x.wf());
            }
        } else {
            assert(s.filter(pred) == s0.filter(pred));
        }
    }
}

/// How a code claim is answered.
pub enum ClaimResult {
    /// The chat account already holds a record; nothing changes.
    AlreadyLinked,
    /// No record holds the submitted code; nothing changes.
    Invalid,
    /// The matching record moved to `Pending` and was linked; its identity
    /// and display name are handed back for the notification.
    Claimed { uuid: String, name: String },
}

/// The record after a chat account claims its code: linked, `Pending`, with
/// the code and its expiry cleared.
pub open spec fn claimed(u: UserState, id: u64) -> UserState {
    UserState {
        discord_id: Some(id),
        verify_state: VerifyState::Pending,
        verify_code: None,
        code_expires: None,
        ..u
    }
}

/// The record with the review notification's handle attached.
pub open spec fn with_message(u: UserState, m: u64) -> UserState {
    UserState { verify_message: Some(m), ..u }
}

/// The record once a moderator approves it.
pub open spec fn approved(u: UserState) -> UserState {
    UserState { verify_state: VerifyState::Approved, ..u }
}

/// What the authority answers a connecting player, given that player's
/// record: code instructions while `New`, a wait notice while `Pending`, and
/// the empty string (proceed) once `Approved`.
pub open spec fn connect_reply(u: UserState) -> Seq<char> {
    match u.verify_state {
        VerifyState::New => connect_code_message(u.verify_code->0 as int),
        VerifyState::Pending => pending_message(),
        VerifyState::Approved => Seq::<char>::empty(),
    }
}

/// What serving a connect query guarantees: a known identity leaves the
/// table as it was and is answered per `connect_reply`; an unseen one gets a
/// fresh `New` record appended, whose code no outstanding record shares.
pub open spec fn connect_post(
    pre: Seq<UserState>,
    post: Seq<UserState>,
    name: Seq<char>,
    uuid: Seq<char>,
    now: u128,
    reply: Seq<char>,
) -> bool {
    &&& (has_uuid(pre, uuid) ==> post == pre && reply == connect_reply(
        pre[uuid_index(pre, uuid)],
    ))
    &&& (!has_uuid(pre, uuid) ==> {
        let u = post.last();
        &&& post.len() == pre.len() + 1
        &&& post.subrange(0, pre.len() as int) == pre
        &&& u.name@ == name
        &&& u.uuid@ == uuid
        &&& u.verify_state is New
        &&& u.discord_id is None
        &&& u.verify_message is None
        &&& (u.verify_code matches Some(c) && CODE_MIN <= c < CODE_MAX && !has_live_code(pre, c))
        &&& u.code_expires == Some((now + CODE_TTL_MILLIS) as u128)
        &&& reply == connect_reply(u)
    })
}

/// What serving a code claim guarantees; see `UserTable::discord_code`.
pub open spec fn claim_post(
    pre: Seq<UserState>,
    post: Seq<UserState>,
    code: i32,
    id: u64,
    r: ClaimResult,
) -> bool {
    &&& (has_discord(pre, id) ==> post == pre && r is AlreadyLinked)
    &&& ((!has_discord(pre, id) && !has_live_code(pre, code)) ==> post == pre && r is Invalid)
    &&& ((!has_discord(pre, id) && has_live_code(pre, code)) ==> {
        let i = code_index(pre, code);
        &&& post == pre.update(i, claimed(pre[i], id))
        &&& (r matches ClaimResult::Claimed { uuid, name } && uuid@ == pre[i].uuid@ && name@
            == pre[i].name@)
    })
}

/// What serving an approval guarantees; see `UserTable::discord_approval`.
pub open spec fn approval_post(
    pre: Seq<UserState>,
    post: Seq<UserState>,
    uuid: Seq<char>,
    r: bool,
) -> bool {
    &&& r == (has_uuid(pre, uuid) && durable(pre[uuid_index(pre, uuid)]))
    &&& (r ==> post == pre.update(uuid_index(pre, uuid), approved(pre[uuid_index(pre, uuid)])))
    &&& (!r ==> post == pre)
}

/// What removing a chat account guarantees; see `UserTable::remove_user`.
pub open spec fn remove_post(
    pre: Seq<UserState>,
    post: Seq<UserState>,
    id: u64,
    r: Option<u64>,
) -> bool {
    &&& (has_discord(pre, id) ==> {
        let i = discord_index(pre, id);
        &&& r == pre[i].verify_message
        &&& post == pre.remove(i)
    })
    &&& (!has_discord(pre, id) ==> r is None && post == pre)
}

/// What storing a notification handle guarantees; see
/// `UserTable::link_verify_message`.
pub open spec fn link_post(pre: Seq<UserState>, post: Seq<UserState>, uuid: Seq<char>, m: u64) -> bool {
    &&& ((has_uuid(pre, uuid) && durable(pre[uuid_index(pre, uuid)])) ==> post == pre.update(
        uuid_index(pre, uuid),
        with_message(pre[uuid_index(pre, uuid)], m),
    ))
    &&& (!(has_uuid(pre, uuid) && durable(pre[uuid_index(pre, uuid)])) ==> post == pre)
}

/// Relies on rand::random_range: a value drawn from the given non-empty
/// range, always within its bounds.
#[verifier::external_body]
fn random_code() -> (r: i32)
    ensures
        CODE_MIN <= r < CODE_MAX,
{
    rand::random_range(CODE_MIN..CODE_MAX)
}

/// The table of verification records. Only the authority task holds one.
pub struct UserTable {
    users: Vec<UserState>,
}

impl View for UserTable {
    type V = Seq<UserState>;

    closed spec fn view(&self) -> Seq<UserState> {
        self.users@
    }
}

impl UserTable {
    /// The table invariant; see `table_wf`.
    pub open spec fn wf(self) -> bool {
        table_wf(self@)
    }

    /// An empty table.
    pub fn new() -> (r: UserTable)
        ensures
            r.wf(),
            r@ == Seq::<UserState>::empty(),
    {
        let r = UserTable { users: Vec::new() };
        proof {
            assert(r@ =~= Seq::<UserState>::empty());
        }
        r
    }

    /// How many records the table holds.
    pub fn len(&self) -> (r: usize)
        ensures
            r == self@.len(),
    {
        self.users.len()
    }

    /// The record at one position.
    pub fn get(&self, i: usize) -> (r: &UserState)
        requires
            i < self@.len(),
        ensures
            *r == self@[i as int],
    {
        &self.users[i]
    }

    /// Index of the record carrying `uuid`, if any.
    fn find_uuid(&self, uuid: &String) -> (r: Option<usize>)
        ensures
            r matches Some(i) ==> i < self@.len() && self@[i as int].uuid@ == uuid@,
            r is None ==> !has_uuid(self@, uuid@),
    {
        let n = self.users.len();
        let mut i: usize = 0;
        while i < n
            invariant
                n == self@.len(),
                i <= n,
                forall|k: int| 0 <= k < i ==> (#[trigger] self@[k]).uuid@ != uuid@,
            decreases n - i,
        {
            if self.users[i].uuid == *uuid {
                return Some(i);
            }
            i = i + 1;
        }
        None
    }

    /// Index of the record linked to chat account `id`, if any.
    fn find_discord(&self, id: u64) -> (r: Option<usize>)
        ensures
            r matches Some(i) ==> i < self@.len() && self@[i as int].discord_id == Some(id),
            r is None ==> !has_discord(self@, id),
    {
        let n = self.users.len();
        let mut i: usize = 0;
        while i < n
            invariant
                n == self@.len(),
                i <= n,
                forall|k: int| 0 <= k < i ==> (#[trigger] self@[k]).discord_id != Some(id),
            decreases n - i,
        {
            match self.users[i].discord_id {
                Some(d) => {
                    if d == id {
                        return Some(i);
                    }
                },
                None => {},
            }
            i = i + 1;
        }
        None
    }

    /// Index of the record holding outstanding code `code`, if any.
    fn find_code(&self, code: i32) -> (r: Option<usize>)
        ensures
            r matches Some(i) ==> i < self@.len() && self@[i as int].verify_code == Some(code),
            r is None ==> !has_live_code(self@, code),
    {
        let n = self.users.len();
        let mut i: usize = 0;
        while i < n
            invariant
                n == self@.len(),
                i <= n,
                forall|k: int| 0 <= k < i ==> (#[trigger] self@[k]).verify_code != Some(code),
            decreases n - i,
        {
            match self.users[i].verify_code {
                Some(c) => {
                    if c == code {
                        return Some(i);
                    }
                },
                None => {},
            }
            i = i + 1;
        }
        None
    }

    /// Draws random codes until one is free among the outstanding ones. The
    /// draw is bounded; after that a scan of the code space finds a free
    /// code, which must exist while the table is smaller than the space.
    fn fresh_code(&self) -> (r: i32)
        requires
            self.wf(),
            self@.len() < CODE_MAX - CODE_MIN,
        ensures
            CODE_MIN <= r < CODE_MAX,
            !has_live_code(self@, r),
    {
        let mut tries: u32 = 0;
        while tries < 64
            invariant
                tries <= 64,
            decreases 64 - tries,
        {
            let code = random_code();
            match self.find_code(code) {
                None => {
                    return code;
                },
                Some(_) => {},
            }
            tries = tries + 1;
        }
        let mut c: i32 = CODE_MIN;
        while c < CODE_MAX
            invariant
                CODE_MIN <= c <= CODE_MAX,
                forall|d: i32| CODE_MIN <= d < c ==> has_live_code(self@, d),
            decreases CODE_MAX - c,
        {
            match self.find_code(c) {
                None => {
                    return c;
                },
                Some(_) => {},
            }
            c = c + 1;
        }
        proof {
            // Every code in the space is outstanding, so the codes inject
            // into the table's indices and the table cannot be smaller than
            // the space.
            let s = self@;
            let space = vstd::set_lib::set_int_range(CODE_MIN as int, CODE_MAX as int);
            let f = |c: int| code_index(s, c as i32);
            vstd::set_lib::lemma_int_range(CODE_MIN as int, CODE_MAX as int);
            assert forall|c: int| space.contains(c) implies 0 <= #[trigger] f(c) < s.len()
            && s[f(c)].verify_code == Some(c as i32) by {
            assert(has_live_code(s, c as i32));
            let i = code_index(s, c as i32);
            assert(0 <= i < s.len() && s[i].verify_code == Some(c as i32));
            }
            assert(vstd::relations::injective_on(f, space)) by {
            assert forall|c1: int, c2: int|
                #![trigger f(c1), f(c2)]
                space.contains(c1) && space.contains(c2) && f(c1) == f(c2) implies c1 == c2 by {
                assert(s[f(c1)].verify_code == Some(c1 as i32));
                assert(s[f(c2)].verify_code == Some(c2 as i32));
            }
            }
            let image = space.map(f);
            vstd::set_lib::lemma_map_size(space, image, f);
            let indices = vstd::set_lib::set_int_range(0, s.len() as int);
            vstd::set_lib::lemma_int_range(0, s.len() as int);
            assert(image.subset_of(indices)) by {
            assert forall|y: int| image.contains(y) implies indices.contains(y) by {
                let c = choose|c: int| space.contains(c) && f(c) == y;
                assert(0 <= f(c) < s.len());
            }
            }
            vstd::set_lib::lemma_len_subset(image, indices);
            assert(false);
        }
        CODE_MIN
    }

    /// Serves one connect query. An unseen identity gets a fresh record in
    /// state `New`, with a code no other record holds, expiring shortly after
    /// `now`; a known identity leaves the table unchanged. Either way the
    /// reply is the text `connect_reply` prescribes for the record.
    pub fn connect_query(&mut self, name: &String, uuid: &String, now: u128) -> (reply: String)
        requires
            old(self).wf(),
            old(self)@.len() < CODE_MAX - CODE_MIN,
            now + CODE_TTL_MILLIS <= u128::MAX,
        ensures
            final(self).wf(),
            connect_post(old(self)@, final(self)@, name@, uuid@, now, reply@),
    {
        match self.find_uuid(uuid) {
            Some(i) => {
                proof {
                    let j = uuid_index(self@, uuid@);
                    assert(0 <= j < self@.len() && self@[j].uuid@ == uuid@);
                    assert(j == i);
                }
                let u = &self.users[i];
                match u.verify_code {
                    Some(code) => {
                        proof {
                            assert(self@[i as int].wf());
                        }
                        code_message(code)
                    },
                    None => {
                        if matches!(u.verify_state, VerifyState::Pending) {
                            pending_reply()
                        } else {
                            proof {
                                assert(self@[i as int].wf());
                            }
                            String::new()
                        }
                    },
                }
            },
            None => {
                let code = self.fresh_code();
                let u = UserState::new(name, uuid, code, now);
                let ghost before = self@;
                self.users.push(u);
                proof {
                    assert(self@.subrange(0, before.len() as int) =~= before);
                    assert forall|a: int, b: int|
                        0 <= a < self@.len() && 0 <= b < self@.len() && a != b implies (
                    #[trigger] self@[a]).uuid@ != (#[trigger] self@[b]).uuid@ && ((
                    #[trigger] self@[a]).discord_id is Some ==> self@[a].discord_id
                        != self@[b].discord_id) && ((#[trigger] self@[a]).verify_code is Some
                        ==> self@[a].verify_code != self@[b].verify_code) by {
                        if a < before.len() && b < before.len() {
                            assert(before[a] == self@[a] && before[b] == self@[b]);
                        } else if a == before.len() {
                            assert(self@[b] == before[b]);
                            assert(!(before[b].uuid@ == uuid@));
                        } else {
                            assert(self@[a] == before[a]);
                            assert(!(before[a].uuid@ == uuid@));
                        }
                    }
                }
                code_message(code)
            },
        }
    }

    /// Serves a code claim from chat account `discord_id`. An account that
    /// already holds a record is turned away; an unknown code changes
    /// nothing; otherwise the unique record holding the code is linked to
    /// the account and moved to `Pending`, its code and expiry cleared.
    pub fn discord_code(&mut self, code: i32, discord_id: u64) -> (r: ClaimResult)
        requires
            old(self).wf(),
        ensures
            final(self).wf(),
            claim_post(old(self)@, final(self)@, code, discord_id, r),
    {
        match self.find_discord(discord_id) {
            Some(_) => ClaimResult::AlreadyLinked,
            None => {
                match self.find_code(code) {
                    None => ClaimResult::Invalid,
                    Some(i) => {
                        let ghost before = self@;
                        proof {
                            let j = code_index(before, code);
                            assert(0 <= j < before.len() && before[j].verify_code == Some(code));
                            assert(j == i);
                            assert(before[i as int].wf());
                        }
                        let uuid = self.users[i].uuid.clone();
                        let name = self.users[i].name.clone();
                        let rec = UserState {
                            name: self.users[i].name.clone(),
                            uuid: self.users[i].uuid.clone(),
                            discord_id: Some(discord_id),
                            verify_state: VerifyState::Pending,
                            verify_message: self.users[i].verify_message,
                            verify_code: None,
                            code_expires: None,
                        };
                        self.users[i] = rec;
                        proof {
                            assert(self@[i as int] == claimed(before[i as int], discord_id));
                            assert(self@ == before.update(
                                i as int,
                                claimed(before[i as int], discord_id),
                            ));
                            assert forall|a: int, b: int|
                                0 <= a < self@.len() && 0 <= b < self@.len() && a != b implies (
                            #[trigger] self@[a]).uuid@ != (#[trigger] self@[b]).uuid@ && ((
                            #[trigger] self@[a]).discord_id is Some ==> self@[a].discord_id
                                != self@[b].discord_id) && ((
                            #[trigger] self@[a]).verify_code is Some ==> self@[a].verify_code
                                != self@[b].verify_code) by {
                                assert(before[a].uuid@ != before[b].uuid@);
                                if a != i && b != i {
                                    assert(self@[a] == before[a] && self@[b] == before[b]);
                                } else if a == i {
                                    assert(self@[b] == before[b]);
                                    assert(!(before[b].discord_id == Some(discord_id)));
                                } else {
                                    assert(self@[a] == before[a]);
                                    assert(!(before[a].discord_id == Some(discord_id)));
                                }
                            }
                        }
                        ClaimResult::Claimed { uuid, name }
                    },
                }
            },
        }
    }

    /// Stores the review notification's handle on the record carrying
    /// `uuid`. A missing identity, or one still in `New`, changes nothing.
    pub fn link_verify_message(&mut self, uuid: &String, message_id: u64)
        requires
            old(self).wf(),
        ensures
            final(self).wf(),
            link_post(old(self)@, final(self)@, uuid@, message_id),
    {
        let ghost before = self@;
        match self.find_uuid(uuid) {
            None => {},
            Some(i) => {
                proof {
                    let j = uuid_index(before, uuid@);
                    assert(0 <= j < before.len() && before[j].uuid@ == uuid@);
                    assert(j == i);
                    assert(before[i as int].wf());
                }
                if !matches!(self.users[i].verify_state, VerifyState::New) {
                    self.users[i].verify_message = Some(message_id);
                    proof {
                        assert(self@[i as int] == with_message(before[i as int], message_id));
                        assert(self@ == before.update(
                            i as int,
                            with_message(before[i as int], message_id),
                        ));
                        assert forall|a: int| 0 <= a < self@.len() implies (
                        #[trigger] self@[a]).wf() && self@[a].uuid@ == before[a].uuid@
                            && self@[a].discord_id == before[a].discord_id && self@[a].verify_code
                            == before[a].verify_code by {
                            if a != i {
                                assert(self@[a] == before[a]);
                            }
                        }
                    }
                }
            },
        }
    }

    /// Serves a moderator's approval of `uuid`: a linked record moves to
    /// `Approved` and the call reports success; a missing identity, or one
    /// never linked, reports failure and changes nothing.
    pub fn discord_approval(&mut self, uuid: &String) -> (r: bool)
        requires
            old(self).wf(),
        ensures
            final(self).wf(),
            approval_post(old(self)@, final(self)@, uuid@, r),
    {
        let ghost before = self@;
        match self.find_uuid(uuid) {
            None => false,
            Some(i) => {
                proof {
                    let j = uuid_index(before, uuid@);
                    assert(0 <= j < before.len() && before[j].uuid@ == uuid@);
                    assert(j == i);
                    assert(before[i as int].wf());
                }
                if matches!(self.users[i].verify_state, VerifyState::New) {
                    false
                } else {
                    self.users[i].verify_state = VerifyState::Approved;
                    proof {
                        assert(self@[i as int] == approved(before[i as int]));
                        assert(self@ == before.update(i as int, approved(before[i as int])));
                        assert forall|a: int| 0 <= a < self@.len() implies (
                        #[trigger] self@[a]).wf() && self@[a].uuid@ == before[a].uuid@
                            && self@[a].discord_id == before[a].discord_id && self@[a].verify_code
                            == before[a].verify_code by {
                            if a != i {
                                assert(self@[a] == before[a]);
                            }
                        }
                    }
                    true
                }
            },
        }
    }

    /// Unlinks chat account `discord_id`: its record, if any, is deleted
    /// entirely, and the handle of the record's review notification is
    /// handed back when one was stored.
    pub fn remove_user(&mut self, discord_id: u64) -> (r: Option<u64>)
        requires
            old(self).wf(),
        ensures
            final(self).wf(),
            remove_post(old(self)@, final(self)@, discord_id, r),
    {
        let ghost before = self@;
        match self.find_discord(discord_id) {
            None => None,
            Some(i) => {
                proof {
                    let j = discord_index(before, discord_id);
                    assert(0 <= j < before.len() && before[j].discord_id == Some(discord_id));
                    assert(j == i);
                }
                let r = self.users[i].verify_message;
                self.users.remove(i);
                proof {
                    assert(self@ == before.remove(i as int));
                    assert forall|a: int, b: int|
                        0 <= a < self@.len() && 0 <= b < self@.len() && a != b implies (
                    #[trigger] self@[a]).wf() && (#[trigger] self@[b]).wf() && self@[a].uuid@
                        != self@[b].uuid@ && (self@[a].discord_id is Some ==> self@[a].discord_id
                        != self@[b].discord_id) && (self@[a].verify_code is Some
                        ==> self@[a].verify_code != self@[b].verify_code) by {
                        let a0 = if a < i { a } else { a + 1 };
                        let b0 = if b < i { b } else { b + 1 };
                        assert(self@[a] == before[a0] && self@[b] == before[b0]);
                    }
                }
                r
            },
        }
    }

    /// The expiry sweep: every record whose code expiry has passed `now` is
    /// dropped; all others survive in order. By the invariant only `New`
    /// records carry an expiry, so only `New` records can lapse.
    #[verifier::loop_isolation(false)]
    pub fn sweep_expired(&mut self, now: u128)
        requires
            old(self).wf(),
        ensures
            final(self).wf(),
            final(self)@ == live_records(old(self)@, now),
    {
        let ghost before = self@;
        let ghost pred = |u: UserState| live(u, now);
        let n = self.users.len();
        let mut kept: Vec<UserState> = Vec::new();
        let mut i: usize = 0;
        while i < n
            invariant
                self@ == before,
                n == before.len(),
                i <= n,
                kept@ == before.subrange(0, i as int).filter(pred),
            decreases n - i,
        {
            let u = &self.users[i];
            let keep = match u.code_expires {
                Some(e) => e > now,
                None => true,
            };
            proof {
                assert(before.subrange(0, i + 1) =~= before.subrange(0, i as int).push(
                    before[i as int],
                ));
                lemma_filter_push(before.subrange(0, i as int), before[i as int], pred);
            }
            if keep {
                kept.push(self.users[i].clone());
            }
            i = i + 1;
        }
        proof {
            assert(before.subrange(0, n as int) =~= before);
            lemma_table_wf_filter(before, pred);
        }
        self.users = kept;
    }

    /// The durable snapshot: copies of the `Pending` and `Approved` records,
    /// in table order, as they are written out.
    #[verifier::loop_isolation(false)]
    pub fn to_persist(&self) -> (r: Vec<UserState>)
        requires
            self.wf(),
        ensures
            r@ == durable_records(self@),
            table_wf(r@),
            forall|i: int| 0 <= i < r@.len() ==> durable(#[trigger] r@[i]),
    {
        let ghost pred = |u: UserState| durable(u);
        let n = self.users.len();
        let mut out: Vec<UserState> = Vec::new();
        let mut i: usize = 0;
        while i < n
            invariant
                n == self@.len(),
                i <= n,
                out@ == self@.subrange(0, i as int).filter(pred),
            decreases n - i,
        {
            proof {
                assert(self@.subrange(0, i + 1) =~= self@.subrange(0, i as int).push(
                    self@[i as int],
                ));
                lemma_filter_push(self@.subrange(0, i as int), self@[i as int], pred);
            }
            let keep = !matches!(self.users[i].verify_state, VerifyState::New);
            if keep {
                out.push(self.users[i].clone());
            }
            i = i + 1;
        }
        proof {
            assert(self@.subrange(0, n as int) =~= self@);
            lemma_table_wf_filter(self@, pred);
        }
        proof {
            assert forall|k: int| 0 <= k < out@.len() implies durable(#[trigger] out@[k]) by {
                self@.lemma_filter_pred(pred, k);
            }
        }
        out
    }

    /// Rebuilds a table from a stored snapshot. The snapshot is accepted
    /// exactly when it could have come from `to_persist` on a well-formed
    /// table: every record durable and well-formed, identities and linked
    /// accounts unique.
    #[verifier::loop_isolation(false)]
    pub fn from_persist(records: Vec<UserState>) -> (r: Option<UserTable>)
        ensures
            r is Some <==> loadable(records@),
            r matches Some(t) ==> t@ == records@ && t.wf(),
    {
        let n = records.len();
        let mut i: usize = 0;
        while i < n
            invariant
                n == records@.len(),
                i <= n,
                forall|k: int|
                    0 <= k < i ==> (#[trigger] records@[k]).wf() && durable(records@[k]),
                forall|a: int, b: int|
                    0 <= a < b < i ==> (#[trigger] records@[a]).uuid@ != (
                    #[trigger] records@[b]).uuid@ && records@[a].discord_id
                        != records@[b].discord_id,
            decreases n - i,
        {
            let u = &records[i];
            let shape_ok = !matches!(u.verify_state, VerifyState::New)
                && matches!(u.verify_code, None) && matches!(u.code_expires, None) && matches!(
                u.discord_id,
                Some(_),
            );
            if !shape_ok {
                proof {
                    assert(!(records@[i as int].wf() && durable(records@[i as int])));
                }
                return None;
            }
            let mut j: usize = 0;
            while j < i
                invariant
                    n == records@.len(),
                    j <= i < n,
                    forall|k: int|
                        0 <= k < j ==> (#[trigger] records@[k]).uuid@ != records@[i as int].uuid@
                            && records@[k].discord_id != records@[i as int].discord_id,
                decreases i - j,
            {
                if records[j].uuid == records[i].uuid {
                    proof {
                        assert(records@[j as int].uuid@ == records@[i as int].uuid@);
                    }
                    return None;
                }
                let same_discord = match (records[j].discord_id, records[i].discord_id) {
                    (Some(a), Some(b)) => a == b,
                    _ => false,
                };
                if same_discord {
                    return None;
                }
                j = j + 1;
            }
            i = i + 1;
        }
        proof {
            assert forall|a: int, b: int|
                0 <= a < records@.len() && 0 <= b < records@.len() && a != b implies (
            #[trigger] records@[a]).uuid@ != (#[trigger] records@[b]).uuid@ && ((
            #[trigger] records@[a]).discord_id is Some ==> records@[a].discord_id
                != records@[b].discord_id) && ((#[trigger] records@[a]).verify_code is Some
                ==> records@[a].verify_code != records@[b].verify_code) by {
                if a < b {
                } else {
                }
            }
        }
        Some(UserTable { users: records })
    }
}

/// A snapshot a table can be rebuilt from: all records durable and
/// well-formed, identities and linked accounts unique.
pub open spec fn loadable(s: Seq<UserState>) -> bool {
    table_wf(s) && forall|i: int| 0 <= i < s.len() ==> durable(#[trigger] s[i])
}

/// Each identity keys at most one record: two distinct positions in a
/// well-formed table never carry the same identity.
pub proof fn lemma_identity_unique(t: UserTable, i: int, j: int)
    requires
        t.wf(),
        0 <= i < t@.len(),
        0 <= j < t@.len(),
        i != j,
    ensures
        t@[i].uuid@ != t@[j].uuid@,
{
}

/// A record holds a code exactly while it is `New`, and a linked account
/// exactly once it no longer is.
pub proof fn lemma_record_shape(t: UserTable, i: int)
    requires
        t.wf(),
        0 <= i < t@.len(),
    ensures
        t@[i].verify_code is Some <==> t@[i].verify_state is New,
        t@[i].discord_id is Some <==> !(t@[i].verify_state is New),
{
    assert(t@[i].wf());
}

/// No two records share a linked account, and no two share an outstanding
/// code.
pub proof fn lemma_links_and_codes_unique(t: UserTable, i: int, j: int)
    requires
        t.wf(),
        0 <= i < t@.len(),
        0 <= j < t@.len(),
        i != j,
    ensures
        t@[i].discord_id is Some ==> t@[i].discord_id != t@[j].discord_id,
        t@[i].verify_code is Some ==> t@[i].verify_code != t@[j].verify_code,
{
}

/// A record whose code expiry has passed `now` is absent from the table the
/// sweep leaves, whatever else the table holds.
pub proof fn lemma_sweep_drops_expired(s: Seq<UserState>, now: u128, i: int)
    requires
        0 <= i < s.len(),
        s[i].code_expires matches Some(e) && e <= now,
    ensures
        !live_records(s, now).contains(s[i]),
{
    let pred = |u: UserState| live(u, now);
    if live_records(s, now).contains(s[i]) {
        let k = choose|k: int|
            0 <= k < live_records(s, now).len() && live_records(s, now)[k] == s[i];
        s.lemma_filter_pred(pred, k);
        assert(live(s[i], now));
    }
}

/// Persist/reload round trip: the durable snapshot of a well-formed table is
/// itself loadable, holds exactly the table's `Pending` and `Approved`
/// records in order, and holds no `New` record, so reloading it yields back
/// exactly those records.
pub proof fn lemma_persist_round_trip(t: UserTable)
    requires
        t.wf(),
    ensures
        loadable(durable_records(t@)),
        forall|i: int| 0 <= i < durable_records(t@).len() ==> durable(#[trigger] durable_records(t@)[i]),
        durable_records(t@) == t@.filter(|u: UserState| durable(u)),
{
    let pred = |u: UserState| durable(u);
    lemma_table_wf_filter(t@, pred);
    assert forall|i: int| 0 <= i < durable_records(t@).len() implies durable(
        #[trigger] durable_records(t@)[i],
    ) by {
        t@.lemma_filter_pred(pred, i);
    }
}

} // verus!
