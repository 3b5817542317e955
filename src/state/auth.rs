//! Access tokens: at most one live token per client, and an index from token
//! string to client kept in step with it.
use vstd::prelude::*;
use vstd::string::*;
use dashmap::DashMap;
use crate::keyed::DeepCopy;
use crate::stamps::unix_seconds;
use crate::text::{decimal, decimal_string, has_prefix, strip_prefix};

verus! {

pub struct TokenInfo {
    pub access_token: String,
    pub token_type: String,
    pub expires_in: u64,
    pub expires_at: u64,
    pub refresh_token: Option<String>,
    pub scope: Option<String>,
    pub client_id: String,
}

impl DeepCopy for TokenInfo {
    fn deep_copy(&self) -> (r: TokenInfo) {
        TokenInfo {
            access_token: self.access_token.clone(),
            token_type: self.token_type.clone(),
            expires_in: self.expires_in,
            expires_at: self.expires_at,
            refresh_token: self.refresh_token.deep_copy(),
            scope: self.scope.deep_copy(),
            client_id: self.client_id.clone(),
        }
    }
}

pub open spec fn access_token_for(client: Seq<char>, now: nat) -> Seq<char> {
    "mock_token_"@ + client + "_"@ + decimal(now)
}

/// The access token issued to `client` at `now`: the time stamp, or, where
/// the client's current token already starts with that stamp (a second issue
/// within one second), the current token followed by `_r`. Either way it
/// differs from the current token.
pub open spec fn issued_access_token(client: Seq<char>, now: nat, current: Option<Seq<char>>) -> Seq<char> {
    match current {
        Some(c) => if has_prefix(c, access_token_for(client, now)) { c + "_r"@ } else { access_token_for(client, now) },
        None => access_token_for(client, now),
    }
}

/// The access token that `client` holds in `s`, if any.
pub open spec fn current_access_token(s: AuthState, client: Seq<char>) -> Option<Seq<char>> {
    if s.tokens().contains_key(client) { Some(s.tokens()[client].access_token@) } else { None }
}

pub open spec fn refresh_token_for(client: Seq<char>, now: nat) -> Seq<char> {
    "mock_refresh_"@ + client + "_"@ + decimal(now)
}

/// `now + expires_in`, held at the largest `u64`.
pub open spec fn expiry(now: u64, expires_in: u64) -> u64 {
    if now + expires_in > u64::MAX { u64::MAX } else { (now + expires_in) as u64 }
}

/// Client id to token.
pub type ClientTable = DashMap<String, TokenInfo>;

/// Token string to client id.
pub type TokenIndex = DashMap<String, String>;

/// What a client table holds: client id to that client's token.
pub uninterp spec fn client_tokens(m: DashMap<String, TokenInfo>) -> Map<Seq<char>, TokenInfo>;

/// What a token index holds: token string to client id.
pub uninterp spec fn token_clients(m: DashMap<String, String>) -> Map<Seq<char>, Seq<char>>;

/// Relies on `DashMap::new`: a map with no entries.
#[verifier::external_body]
fn new_client_tokens() -> (r: ClientTable)
    ensures
        client_tokens(r).dom() == Set::<Seq<char>>::empty(),
{
    DashMap::new()
}

/// Relies on `DashMap::new`: a map with no entries.
#[verifier::external_body]
fn new_token_clients() -> (r: TokenIndex)
    ensures
        token_clients(r).dom() == Set::<Seq<char>>::empty(),
{
    DashMap::new()
}

/// Relies on `DashMap::get`: the entry stored under the key, if any; `String`
/// keys compare by their characters.
#[verifier::external_body]
fn client_token(m: &DashMap<String, TokenInfo>, client: &str) -> (r: Option<TokenInfo>)
    ensures
        match r {
            Some(t) => client_tokens(*m).contains_key(client@) && client_tokens(*m)[client@] == t,
            None => !client_tokens(*m).contains_key(client@),
        },
{
    m.get(client).map(|e| e.value().deep_copy())
}

/// Relies on `DashMap::get`: the entry stored under the key, if any.
#[verifier::external_body]
fn indexed_client(m: &DashMap<String, String>, token: &str) -> (r: Option<String>)
    ensures
        match r {
            Some(c) => token_clients(*m).contains_key(token@) && token_clients(*m)[token@] == c@,
            None => !token_clients(*m).contains_key(token@),
        },
{
    m.get(token).map(|e| e.value().deep_copy())
}

/// Relies on `DashMap::insert`: the key now maps to the value, others are kept.
#[verifier::external_body]
fn store_client_token(m: &mut DashMap<String, TokenInfo>, client: String, t: TokenInfo)
    ensures
        client_tokens(*final(m)) == client_tokens(*old(m)).insert(client@, t),
{
    m.insert(client, t);
}

/// Relies on `DashMap::insert`: the key now maps to the value, others are kept.
#[verifier::external_body]
fn store_token_client(m: &mut DashMap<String, String>, token: String, client: String)
    ensures
        token_clients(*final(m)) == token_clients(*old(m)).insert(token@, client@),
{
    m.insert(token, client);
}

/// Relies on `DashMap::remove`: the key's entry is gone, others are kept.
#[verifier::external_body]
fn drop_client_token(m: &mut DashMap<String, TokenInfo>, client: &str)
    ensures
        client_tokens(*final(m)) == client_tokens(*old(m)).remove(client@),
{
    m.remove(client);
}

/// Relies on `DashMap::remove`: the key's entry is gone and handed back,
/// others are kept.
#[verifier::external_body]
fn drop_token_client(m: &mut DashMap<String, String>, token: &str) -> (r: Option<String>)
    ensures
        token_clients(*final(m)) == token_clients(*old(m)).remove(token@),
        match r {
            Some(c) => token_clients(*old(m)).contains_key(token@) && token_clients(*old(m))[token@] == c@,
            None => !token_clients(*old(m)).contains_key(token@),
        },
{
    m.remove(token).map(|(_, c)| c)
}

/// The token store: client id to token, and token to client id for
/// constant-time validation.
pub struct AuthState {
    tokens_by_client: DashMap<String, TokenInfo>,
    token_index: DashMap<String, String>,
}

/// `post` is `pre` after issuing `t` to `client` at time `now`: the client's
/// previous token, if any, has left the index before the new one entered it.
pub open spec fn token_issued(
    pre: AuthState,
    post: AuthState,
    client: Seq<char>,
    expires_in: u64,
    scope: Option<String>,
    now: u64,
    t: TokenInfo,
) -> bool {
    &&& t.access_token@ == issued_access_token(client, now as nat, current_access_token(pre, client))
    &&& t.token_type@ == "Bearer"@
    &&& t.expires_in == expires_in
    &&& t.expires_at == expiry(now, expires_in)
    &&& t.refresh_token is Some && t.refresh_token->0@ == refresh_token_for(client, now as nat)
    &&& t.scope == scope
    &&& t.client_id@ == client
    &&& post.wf()
    &&& post.tokens() == pre.tokens().insert(client, t)
    &&& post.index() == (if pre.tokens().contains_key(client) {
        pre.index().remove(pre.tokens()[client].access_token@)
    } else {
        pre.index()
    }).insert(t.access_token@, client)
}

/// Whether `token` is accepted at time `now`: it is indexed, its client holds
/// a token, and that token expires strictly after `now`.
pub open spec fn valid_at(s: AuthState, token: Seq<char>, now: u64) -> bool {
    &&& s.index().contains_key(token)
    &&& s.tokens().contains_key(s.index()[token])
    &&& s.tokens()[s.index()[token]].expires_at > now
}

impl AuthState {
    /// Client id to its token.
    pub closed spec fn tokens(&self) -> Map<Seq<char>, TokenInfo> {
        client_tokens(self.tokens_by_client)
    }

    /// Token string to client id.
    pub closed spec fn index(&self) -> Map<Seq<char>, Seq<char>> {
        token_clients(self.token_index)
    }

    /// Every indexed token is the current token of the client it names, so a
    /// client has at most one token that validates.
    pub open spec fn wf(&self) -> bool {
        forall|t: Seq<char>| #[trigger] self.index().contains_key(t) ==> {
            &&& self.tokens().contains_key(self.index()[t])
            &&& self.tokens()[self.index()[t]].access_token@ == t
        }
    }

    pub fn new() -> (r: AuthState)
        ensures
            r.wf(),
            r.tokens() == Map::<Seq<char>, TokenInfo>::empty(),
            r.index() == Map::<Seq<char>, Seq<char>>::empty(),
    {
        let r = AuthState { tokens_by_client: new_client_tokens(), token_index: new_token_clients() };
        assert(r.tokens() =~= Map::<Seq<char>, TokenInfo>::empty());
        assert(r.index() =~= Map::<Seq<char>, Seq<char>>::empty());
        r
    }

    /// Issues a new token to `client_id`, stamped with the current time.
    pub fn generate_token(&mut self, client_id: &str, expires_in: u64, scope: Option<String>) -> (r: TokenInfo)
        requires
            old(self).wf(),
        ensures
            exists|now: u64| token_issued(*old(self), *final(self), client_id@, expires_in, scope, now, r),
    {
        let now = unix_seconds();
        self.generate_token_at(client_id, expires_in, scope, now)
    }

    /// Issues a new token to `client_id` at time `now` (seconds since the
    /// epoch), replacing the client's previous one.
    pub fn generate_token_at(&mut self, client_id: &str, expires_in: u64, scope: Option<String>, now: u64) -> (r: TokenInfo)
        requires
            old(self).wf(),
        ensures
            token_issued(*old(self), *final(self), client_id@, expires_in, scope, now, r),
    {
        let ghost pre = *self;
        let stamp = decimal_string(now);
        let mut base = String::from_str("mock_token_");
        base.append(client_id);
        base.append("_");
        base.append(stamp.as_str());
        let access = match client_token(&self.tokens_by_client, client_id) {
            Some(old_token) => {
                let _ = drop_token_client(&mut self.token_index, old_token.access_token.as_str());
                match strip_prefix(old_token.access_token.as_str(), base.as_str()) {
                    Some(_) => {
                        let mut again = old_token.access_token;
                        again.append("_r");
                        again
                    },
                    None => base,
                }
            },
            None => base,
        };
        let mut refresh = String::from_str("mock_refresh_");
        refresh.append(client_id);
        refresh.append("_");
        refresh.append(stamp.as_str());
        let token = TokenInfo {
            access_token: access,
            token_type: String::from_str("Bearer"),
            expires_in,
            expires_at: now.saturating_add(expires_in),
            refresh_token: Some(refresh),
            scope,
            client_id: String::from_str(client_id),
        };
        store_token_client(&mut self.token_index, token.access_token.clone(), String::from_str(client_id));
        let r = token.deep_copy();
        store_client_token(&mut self.tokens_by_client, String::from_str(client_id), token);
        proof {
            assert forall|t: Seq<char>| #[trigger] self.index().contains_key(t) implies {
                &&& self.tokens().contains_key(self.index()[t])
                &&& self.tokens()[self.index()[t]].access_token@ == t
            } by {
                if t != r.access_token@ {
                    assert(pre.index().contains_key(t));
                }
            }
        }
        r
    }

    /// The token that `client_id` holds.
    pub fn get_token(&self, client_id: &str) -> (r: Option<TokenInfo>)
        ensures
            match r {
                Some(t) => self.tokens().contains_key(client_id@) && self.tokens()[client_id@] == t,
                None => !self.tokens().contains_key(client_id@),
            },
    {
        client_token(&self.tokens_by_client, client_id)
    }

    /// Whether `token` is accepted at time `now`.
    pub fn validate_token_at(&self, token: &str, now: u64) -> (r: bool)
        ensures
            r == valid_at(*self, token@, now),
    {
        match indexed_client(&self.token_index, token) {
            Some(client) => match client_token(&self.tokens_by_client, client.as_str()) {
                Some(info) => info.expires_at > now,
                None => false,
            },
            None => false,
        }
    }

    /// Whether `token` is accepted now.
    pub fn validate_token(&self, token: &str) -> (r: bool)
        ensures
            exists|now: u64| r == valid_at(*self, token@, now),
    {
        let now = unix_seconds();
        self.validate_token_at(token, now)
    }

    /// Withdraws `token` together with the record of the client that holds it.
    pub fn revoke_token(&mut self, token: &str)
        requires
            old(self).wf(),
        ensures
            final(self).wf(),
            old(self).index().contains_key(token@) ==> final(self).index() == old(self).index().remove(token@)
                && final(self).tokens() == old(self).tokens().remove(old(self).index()[token@]),
            !old(self).index().contains_key(token@) ==> final(self).index() == old(self).index()
                && final(self).tokens() == old(self).tokens(),
    {
        let ghost pre = *self;
        if let Some(client) = drop_token_client(&mut self.token_index, token) {
            drop_client_token(&mut self.tokens_by_client, client.as_str());
            proof {
                assert forall|t: Seq<char>| #[trigger] self.index().contains_key(t) implies {
                    &&& self.tokens().contains_key(self.index()[t])
                    &&& self.tokens()[self.index()[t]].access_token@ == t
                } by {
                    assert(pre.index().contains_key(t));
                    assert(pre.index().contains_key(token@));
                }
            }
        }
    }
}

/// A new token never repeats the token it replaces.
proof fn lemma_issued_token_differs(client: Seq<char>, now: nat, current: Seq<char>)
    ensures
        issued_access_token(client, now, Some(current)) != current,
{
    if !has_prefix(current, access_token_for(client, now)) {
        if access_token_for(client, now) == current {
            assert(current.subrange(0, current.len() as int) =~= current);
        }
    } else {
        assert((current + "_r"@).len() > current.len()) by {
            reveal_strlit("_r");
        }
    }
}

/// Issuing a second token to a client invalidates the first at once,
/// whatever its nominal expiry, also within the same second.
pub proof fn lemma_second_token_invalidates_first(
    s0: AuthState,
    s1: AuthState,
    s2: AuthState,
    client: Seq<char>,
    e1: u64,
    e2: u64,
    scope1: Option<String>,
    scope2: Option<String>,
    now1: u64,
    now2: u64,
    t1: TokenInfo,
    t2: TokenInfo,
    when: u64,
)
    requires
        token_issued(s0, s1, client, e1, scope1, now1, t1),
        token_issued(s1, s2, client, e2, scope2, now2, t2),
    ensures
        t2.access_token@ != t1.access_token@,
        !valid_at(s2, t1.access_token@, when),
{
    assert(s1.tokens().contains_key(client));
    assert(s1.tokens()[client] == t1);
    assert(current_access_token(s1, client) == Some(t1.access_token@));
    lemma_issued_token_differs(client, now2 as nat, t1.access_token@);
    assert(!s2.index().contains_key(t1.access_token@));
}

/// At most one token of a client validates: any two valid tokens that name
/// the same client are the same token.
pub proof fn lemma_one_live_token(s: AuthState, a: Seq<char>, b: Seq<char>, now: u64)
    requires
        s.wf(),
        valid_at(s, a, now),
        valid_at(s, b, now),
        s.index()[a] == s.index()[b],
    ensures
        a == b,
{
}

} // verus!
