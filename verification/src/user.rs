//! The user record and its JSON body.

use vstd::prelude::*;
use crate::json::{json_string, push_json_string};
use crate::num::{dec_int, is_digit_char, lemma_dec_int_inj, lemma_dec_int_wf, push_i64};
use crate::timestamp::Timestamp;

verus! {

/// One user row as the lookup reads it from the store: identity plus the
/// linked third-party account fields. The service never writes it back.
#[derive(Debug)]
pub struct User {
    pub id: i64,
    pub name: String,
    pub twitch_id: String,
    pub twitch_login: String,
    pub created_at: Timestamp,
    pub updated_at: Timestamp,
}

impl User {
    /// A well-formed record: both timestamps are real calendar instants.
    pub open spec fn wf(self) -> bool {
        self.created_at.wf() && self.updated_at.wf()
    }

    /// Decide well-formedness at runtime, for callers outside the library
    /// that build a record from store values.
    pub fn is_wf(&self) -> (b: bool)
        ensures
            b == self.wf(),
    {
        self.created_at.is_wf() && self.updated_at.is_wf()
    }
}

/// The exact JSON body returned for a found user: all fields in declaration
/// order, compact, timestamps as quoted RFC 3339 text.
pub open spec fn json_of_user(u: User) -> Seq<char> {
    "{\"id\":"@ + dec_int(u.id as int) + ",\"name\":"@ + json_string(u.name@) + ",\"twitch_id\":"@
        + json_string(u.twitch_id@) + ",\"twitch_login\":"@ + json_string(u.twitch_login@)
        + ",\"created_at\":\""@ + u.created_at.rfc3339() + "\",\"updated_at\":\""@
        + u.updated_at.rfc3339() + "\"}"@
}

/// Render the JSON body for a found user.
pub fn user_json(u: &User) -> (s: String)
    requires
        u.wf(),
    ensures
        s@ == json_of_user(*u),
{
    let mut s = String::new();
    s.append("{\"id\":");
    push_i64(&mut s, u.id);
    s.append(",\"name\":");
    push_json_string(&mut s, u.name.as_str());
    s.append(",\"twitch_id\":");
    push_json_string(&mut s, u.twitch_id.as_str());
    s.append(",\"twitch_login\":");
    push_json_string(&mut s, u.twitch_login.as_str());
    s.append(",\"created_at\":\"");
    let created = u.created_at.format_rfc3339();
    s.append(created.as_str());
    s.append("\",\"updated_at\":\"");
    let updated = u.updated_at.format_rfc3339();
    s.append(updated.as_str());
    s.append("\"}");
    proof {
        assert(s@ =~= json_of_user(*u));
    }
    s
}

/// Distinct rows have distinct bodies: two users with different store ids
/// never render to the same JSON text. The id sits right after the fixed
/// `{"id":` prefix and is terminated by a comma, which no decimal text
/// contains, so equal bodies force equal ids.
pub proof fn lemma_distinct_ids_distinct_json(u1: User, u2: User)
    requires
        u1.id != u2.id,
    ensures
        json_of_user(u1) != json_of_user(u2),
{
    reveal_strlit("{\"id\":");
    reveal_strlit(",\"name\":");
    let d1 = dec_int(u1.id as int);
    let d2 = dec_int(u2.id as int);
    lemma_dec_int_wf(u1.id as int);
    lemma_dec_int_wf(u2.id as int);
    let s1 = json_of_user(u1);
    let s2 = json_of_user(u2);
    if s1 == s2 {
        if d1.len() == d2.len() {
            assert(d1 =~= d2) by {
                assert forall|i: int| 0 <= i < d1.len() implies d1[i] == d2[i] by {
                    assert(s1[6 + i] == d1[i]);
                    assert(s2[6 + i] == d2[i]);
                }
            }
            lemma_dec_int_inj(u1.id as int, u2.id as int);
            assert(false);
        } else if d1.len() < d2.len() {
            assert(s1[6 + d1.len() as int] == ',');
            assert(s2[6 + d1.len() as int] == d2[d1.len() as int]);
            assert(is_digit_char(d2[d1.len() as int]) || d2[d1.len() as int] == '-');
            assert(false);
        } else {
            assert(s2[6 + d2.len() as int] == ',');
            assert(s1[6 + d2.len() as int] == d1[d2.len() as int]);
            assert(is_digit_char(d1[d2.len() as int]) || d1[d2.len() as int] == '-');
            assert(false);
        }
    }
}

} // verus!
