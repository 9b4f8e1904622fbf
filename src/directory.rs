//! The identity directory: user records, found by session token or by user
//! identifier.
use vstd::prelude::*;

verus! {

/// What the service knows of one user.
#[derive(Debug)]
pub struct UserRecord {
    pub uuid: u128,
    pub username: String,
    pub token: String,
    pub rank: String,
    pub last_used: String,
    pub version: String,
    pub banned: bool,
}

impl UserRecord {
    /// A field-by-field copy of this record.
    pub fn duplicate(&self) -> (r: UserRecord)
        ensures
            r == *self,
    {
        UserRecord {
            uuid: self.uuid,
            username: self.username.clone(),
            token: self.token.clone(),
            rank: self.rank.clone(),
            last_used: self.last_used.clone(),
            version: self.version.clone(),
            banned: self.banned,
        }
    }
}

/// No two records share an identifier or a token.
pub open spec fn unique_keys(s: Seq<UserRecord>) -> bool {
    forall|a: int, b: int|
        0 <= a < s.len() && 0 <= b < s.len() && a != b ==> {
            &&& #[trigger] s[a].uuid != #[trigger] s[b].uuid
            &&& s[a].token@ != s[b].token@
        }
}

/// Whether some record has identifier `id`.
pub open spec fn has_id(s: Seq<UserRecord>, id: u128) -> bool {
    exists|i: int| 0 <= i < s.len() && #[trigger] s[i].uuid == id
}

/// Whether some record has token `token`.
pub open spec fn has_token(s: Seq<UserRecord>, token: Seq<char>) -> bool {
    exists|i: int| 0 <= i < s.len() && #[trigger] s[i].token@ == token
}

/// Whether `r` is a record of `s` that an upsert of `rec` leaves in place:
/// one with another identifier and another token.
pub open spec fn survives(r: UserRecord, rec: UserRecord) -> bool {
    r.uuid != rec.uuid && r.token@ != rec.token@
}

/// The records after an upsert of `rec`: those that keep neither its
/// identifier nor its token, then `rec`.
pub open spec fn upserted(s: Seq<UserRecord>, rec: UserRecord) -> Seq<UserRecord> {
    survivors(s, rec).push(rec)
}

/// The records of `s` that an upsert of `rec` leaves in place, in order.
pub open spec fn survivors(s: Seq<UserRecord>, rec: UserRecord) -> Seq<UserRecord> {
    s.filter(|r: UserRecord| survives(r, rec))
}

/// After an upsert, `rec` is found by its identifier and by its token.
pub proof fn lemma_upsert_resolves(s: Seq<UserRecord>, rec: UserRecord)
    ensures
        has_id(upserted(s, rec), rec.uuid),
        has_token(upserted(s, rec), rec.token@),
        upserted(s, rec).last() == rec,
{
    let t = upserted(s, rec);
    assert(t[t.len() - 1].uuid == rec.uuid);
    assert(t[t.len() - 1].token@ == rec.token@);
}

/// All known users.
pub struct IdentityDirectory {
    records: Vec<UserRecord>,
}

impl View for IdentityDirectory {
    type V = Seq<UserRecord>;

    closed spec fn view(&self) -> Seq<UserRecord> {
        self.records@
    }
}

impl IdentityDirectory {
    /// The directory's invariant: identifiers and tokens are unique.
    pub open spec fn wf(&self) -> bool {
        unique_keys(self@)
    }

    /// A directory with no user.
    pub fn new() -> (r: IdentityDirectory)
        ensures
            r.wf(),
            r@ == Seq::<UserRecord>::empty(),
    {
        IdentityDirectory { records: Vec::new() }
    }

    /// The number of known users.
    pub fn len(&self) -> (r: usize)
        ensures
            r == self@.len(),
    {
        self.records.len()
    }

    /// The record of user `id`.
    pub fn resolve_by_id(&self, id: u128) -> (r: Option<&UserRecord>)
        ensures
            match r {
                Some(rec) => rec.uuid == id && self@.contains(*rec),
                None => !has_id(self@, id),
            },
    {
        let mut i: usize = 0;
        while i < self.records.len()
            invariant
                i <= self@.len(),
                forall|j: int| 0 <= j < i ==> #[trigger] self@[j].uuid != id,
            decreases self@.len() - i,
        {
            if self.records[i].uuid == id {
                assert(self@[i as int] == self.records[i as int]);
                return Some(&self.records[i]);
            }
            i = i + 1;
        }
        None
    }

    /// The record that holds session token `token`.
    pub fn resolve_by_token(&self, token: &String) -> (r: Option<&UserRecord>)
        ensures
            match r {
                Some(rec) => rec.token@ == token@ && self@.contains(*rec),
                None => !has_token(self@, token@),
            },
    {
        let mut i: usize = 0;
        while i < self.records.len()
            invariant
                i <= self@.len(),
                forall|j: int| 0 <= j < i ==> #[trigger] self@[j].token@ != token@,
            decreases self@.len() - i,
        {
            if self.records[i].token == *token {
                assert(self@[i as int] == self.records[i as int]);
                return Some(&self.records[i]);
            }
            i = i + 1;
        }
        None
    }

    /// Adds `rec`, or replaces the record with its identifier; a record of
    /// another user that held the same token loses it.
    pub fn upsert(&mut self, rec: UserRecord)
        requires
            old(self).wf(),
        ensures
            final(self).wf(),
            final(self)@ == upserted(old(self)@, rec),
    {
        let ghost pre = self.records@;
        let mut kept: Vec<UserRecord> = Vec::new();
        let ghost mut from: Seq<int> = Seq::empty();
        let mut i: usize = 0;
        while i < self.records.len()
            invariant
                pre == self.records@,
                unique_keys(pre),
                i <= pre.len(),
                kept@ == survivors(pre.subrange(0, i as int), rec),
                from.len() == kept@.len(),
                forall|a: int| 0 <= a < kept@.len() ==> 0 <= #[trigger] from[a] < i && kept@[a] == pre[from[a]],
                forall|a: int, b: int| 0 <= a < b < kept@.len() ==> #[trigger] from[a] < #[trigger] from[b],
                forall|a: int| 0 <= a < kept@.len() ==> survives(#[trigger] kept@[a], rec),
            decreases pre.len() - i,
        {
            let ghost before = kept@;
            proof {
                assert(pre.subrange(0, i + 1).drop_last() =~= pre.subrange(0, i as int));
            }
            let same_token = self.records[i].token == rec.token;
            if self.records[i].uuid != rec.uuid && !same_token {
                let r = self.records[i].duplicate();
                kept.push(r);
                proof {
                    from = from.push(i as int);
                }
            }
            proof {
                let s1 = pre.subrange(0, i + 1);
                assert(s1.last() == pre[i as int]);
                assert(s1 =~= pre.subrange(0, i as int).push(pre[i as int]));
                pre.subrange(0, i as int).lemma_filter_push(pre[i as int], |r: UserRecord| survives(r, rec));
                assert(survivors(s1, rec) =~= kept@);
            }
            i = i + 1;
        }
        proof {
            assert(pre.subrange(0, pre.len() as int) =~= pre);
        }
        kept.push(rec);
        self.records = kept;
        proof {
            let s = self.records@;
            assert forall|a: int, b: int|
                0 <= a < s.len() && 0 <= b < s.len() && a != b implies {
                &&& #[trigger] s[a].uuid != #[trigger] s[b].uuid
                &&& s[a].token@ != s[b].token@
            } by {
                if a < s.len() - 1 && b < s.len() - 1 {
                    assert(s[a] == pre[from[a]]);
                    assert(s[b] == pre[from[b]]);
                    if a < b {
                        assert(from[a] < from[b]);
                    } else {
                        assert(from[b] < from[a]);
                    }
                } else if a < s.len() - 1 {
                    assert(survives(s[a], rec));
                } else {
                    assert(survives(s[b], rec));
                }
            }
        }
    }
}

} // verus!
