//! Accounts and sign-in: which account is active, when its access token is
//! refreshed, what the OAuth redirect carries, and what the token and
//! profile endpoints answer.

use crate::json::{echo_json, i64_member, json_echo, json_i64_member, json_str_member, str_member};
use crate::query::opt_view;
use crate::text::{chars_of, is_whitespace, is_ws, push_str, split, split_char, str_eq, string_of};
use vstd::prelude::*;

verus! {

/// An account as the account switcher shows it.
#[derive(Debug)]
pub struct AccountInfo {
    pub id: String,
    pub email: String,
    pub display_name: String,
    pub avatar_url: String,
    pub is_active: bool,
}

/// The answer of the sign-in check.
#[derive(Debug)]
pub struct AuthStatus {
    pub authenticated: bool,
    pub active_account: Option<AccountInfo>,
    pub accounts: Vec<AccountInfo>,
}

/// A stored account.
#[derive(Debug)]
pub struct AccountRow {
    pub id: String,
    pub email: Option<String>,
    pub display_name: Option<String>,
    pub avatar_url: Option<String>,
    pub token_expiry: Option<i64>,
    pub is_active: Option<i32>,
}

/// Abstract account: (id, email, name, avatar, active).
pub open spec fn info_view(a: AccountInfo) -> (Seq<char>, Seq<char>, Seq<char>, Seq<char>, bool) {
    (a.id@, a.email@, a.display_name@, a.avatar_url@, a.is_active)
}

pub open spec fn infos_view(v: Seq<AccountInfo>) -> Seq<(Seq<char>, Seq<char>, Seq<char>, Seq<char>, bool)> {
    v.map_values(|a: AccountInfo| info_view(a))
}

pub open spec fn text_or_empty(o: Option<Seq<char>>) -> Seq<char> {
    match o {
        Some(s) => s,
        None => Seq::empty(),
    }
}

/// Whether a stored flag says "active" (a missing flag does not).
pub open spec fn active_flag(f: Option<i32>) -> bool {
    f == Some(1i32)
}

/// The account a stored row shows as.
pub open spec fn row_info(r: AccountRow) -> (Seq<char>, Seq<char>, Seq<char>, Seq<char>, bool) {
    (
        r.id@,
        text_or_empty(opt_view(r.email)),
        text_or_empty(opt_view(r.display_name)),
        text_or_empty(opt_view(r.avatar_url)),
        active_flag(r.is_active),
    )
}

fn text_of(o: &Option<String>) -> (r: String)
    ensures
        r@ == text_or_empty(opt_view(*o)),
{
    match o {
        Some(s) => s.clone(),
        None => string_of(Vec::<char>::new().as_slice()),
    }
}

/// The account a stored row shows as.
pub fn account_info(r: &AccountRow) -> (a: AccountInfo)
    ensures
        info_view(a) == row_info(*r),
{
    AccountInfo {
        id: r.id.clone(),
        email: text_of(&r.email),
        display_name: text_of(&r.display_name),
        avatar_url: text_of(&r.avatar_url),
        is_active: match r.is_active {
            Some(f) => f == 1,
            None => false,
        },
    }
}

/// The accounts stored rows show as, in order.
pub fn account_infos(rows: &Vec<AccountRow>) -> (r: Vec<AccountInfo>)
    ensures
        infos_view(r@) == rows@.map_values(|x: AccountRow| row_info(x)),
{
    let mut out: Vec<AccountInfo> = Vec::new();
    let mut i: usize = 0;
    while i < rows.len()
        invariant
            i <= rows@.len(),
            infos_view(out@) == rows@.take(i as int).map_values(|x: AccountRow| row_info(x)),
        decreases rows.len() - i,
    {
        let a = account_info(&rows[i]);
        let ghost prev = infos_view(out@);
        out.push(a);
        assert(infos_view(out@) =~= prev.push(row_info(rows@[i as int])));
        assert(rows@.take(i + 1).map_values(|x: AccountRow| row_info(x)) =~= rows@.take(
            i as int,
        ).map_values(|x: AccountRow| row_info(x)).push(row_info(rows@[i as int])));
        i = i + 1;
    }
    assert(rows@.take(rows@.len() as int) =~= rows@);
    out
}

/// The index of the first active row, if any.
pub open spec fn first_active(rows: Seq<AccountRow>) -> Option<int>
    decreases rows.len(),
{
    if rows.len() == 0 {
        None
    } else if active_flag(rows[0].is_active) {
        Some(0)
    } else {
        match first_active(rows.drop_first()) {
            Some(i) => Some(i + 1),
            None => None,
        }
    }
}

fn find_active(rows: &Vec<AccountRow>) -> (r: Option<usize>)
    ensures
        match r {
            Some(i) => first_active(rows@) == Some(i as int) && i < rows@.len(),
            None => first_active(rows@) is None,
        },
{
    let mut i: usize = 0;
    assert(rows@.skip(0) =~= rows@);
    while i < rows.len()
        invariant
            i <= rows@.len(),
            forall|k: int| 0 <= k < i ==> !active_flag(rows@[k].is_active),
            first_active(rows@) == match first_active(rows@.skip(i as int)) {
                Some(j) => Some(j + i),
                None => None,
            },
        decreases rows.len() - i,
    {
        assert(rows@.skip(i as int).drop_first() =~= rows@.skip(i + 1));
        assert(rows@.skip(i as int)[0] == rows@[i as int]);
        if rows[i].is_active == Some(1i32) {
            return Some(i);
        }
        i = i + 1;
    }
    None
}

/// The first active account of a list, or its first account.
pub open spec fn shown_active(v: Seq<(Seq<char>, Seq<char>, Seq<char>, Seq<char>, bool)>) -> (
    Seq<char>,
    Seq<char>,
    Seq<char>,
    Seq<char>,
    bool,
) {
    if exists|i: int| 0 <= i < v.len() && v[i].4 {
        v[choose|i: int| 0 <= i < v.len() && v[i].4 && forall|j: int| 0 <= j < i ==> !v[j].4]
    } else {
        v[0]
    }
}

proof fn lemma_shown_active(v: Seq<(Seq<char>, Seq<char>, Seq<char>, Seq<char>, bool)>, i: int)
    requires
        0 <= i < v.len(),
        v[i].4,
        forall|k: int| 0 <= k < i ==> !v[k].4,
    ensures
        shown_active(v) == v[i],
{
    let c = choose|j: int| 0 <= j < v.len() && v[j].4 && forall|k: int| 0 <= k < j ==> !v[k].4;
    assert(0 <= i < v.len() && v[i].4 && forall|k: int| 0 <= k < i ==> !v[k].4);
    assert(c == i) by {
        if c < i {
            assert(!v[c].4);
        }
        if c > i {
            assert(!v[i].4);
        }
    }
}

fn copy_info(a: &AccountInfo) -> (r: AccountInfo)
    ensures
        info_view(r) == info_view(*a),
{
    AccountInfo {
        id: a.id.clone(),
        email: a.email.clone(),
        display_name: a.display_name.clone(),
        avatar_url: a.avatar_url.clone(),
        is_active: a.is_active,
    }
}

/// The sign-in answer for a list of accounts: when authenticated, the
/// active account shown is the first marked active, or else the first.
pub fn auth_status(accounts: Vec<AccountInfo>, authenticated: bool) -> (r: AuthStatus)
    requires
        authenticated ==> accounts@.len() > 0,
    ensures
        r.authenticated == authenticated,
        infos_view(r.accounts@) == infos_view(accounts@),
        authenticated ==> (r.active_account matches Some(a) && info_view(a) == shown_active(
            infos_view(accounts@),
        )),
        !authenticated ==> r.active_account is None,
{
    if !authenticated {
        return AuthStatus { authenticated: false, active_account: None, accounts };
    }
    let ghost v = infos_view(accounts@);
    let mut i: usize = 0;
    while i < accounts.len()
        invariant
            authenticated,
            i <= accounts@.len(),
            v == infos_view(accounts@),
            forall|k: int| 0 <= k < i ==> !v[k].4,
        decreases accounts.len() - i,
    {
        if accounts[i].is_active {
            let a = copy_info(&accounts[i]);
            proof {
                lemma_shown_active(v, i as int);
            }
            return AuthStatus { authenticated: true, active_account: Some(a), accounts };
        }
        i = i + 1;
    }
    let a = copy_info(&accounts[0]);
    AuthStatus { authenticated: true, active_account: Some(a), accounts }
}

/// What the sign-in check does next.
#[derive(Debug)]
pub enum AuthNext {
    /// Answer with this status.
    Ready(AuthStatus),
    /// The active account's token has expired: refresh it (when a refresh
    /// token is stored) and answer with `auth_status` for these accounts.
    Refresh { account_id: String, accounts: Vec<AccountInfo> },
}

/// The first step of the sign-in check, and the account to mark active
/// first when none is.
#[derive(Debug)]
pub struct AuthCheck {
    pub activate: Option<String>,
    pub next: AuthNext,
}

/// Plans the sign-in check over the stored accounts at time `now`: no
/// accounts, not signed in; otherwise the first active account (or the
/// first account, which is then marked active) counts, and its token is
/// valid while its expiry is after `now`.
pub fn plan_auth_check(rows: &Vec<AccountRow>, now: i64) -> (r: AuthCheck)
    ensures
        rows@.len() == 0 ==> r.activate is None && (r.next matches AuthNext::Ready(s)
            && !s.authenticated && s.active_account is None && s.accounts@.len() == 0),
        rows@.len() > 0 ==> {
            let k = match first_active(rows@) {
                Some(i) => i,
                None => 0,
            };
            let expiry = match rows@[k].token_expiry {
                Some(e) => e as int,
                None => 0,
            };
            &&& (first_active(rows@) is None) == (r.activate is Some)
            &&& r.activate matches Some(id) ==> id@ == rows@[0].id@
            &&& expiry > now ==> (r.next matches AuthNext::Ready(s) && s.authenticated
                && infos_view(s.accounts@) == rows@.map_values(|x: AccountRow| row_info(x))
                && (s.active_account matches Some(a) && info_view(a) == shown_active(
                infos_view(s.accounts@),
            )))
            &&& expiry <= now ==> (r.next matches AuthNext::Refresh { account_id, accounts }
                && account_id@ == rows@[k].id@ && infos_view(accounts@) == rows@.map_values(
                |x: AccountRow| row_info(x),
            ))
        },
{
    if rows.len() == 0 {
        return AuthCheck {
            activate: None,
            next: AuthNext::Ready(
                AuthStatus { authenticated: false, active_account: None, accounts: Vec::new() },
            ),
        };
    }
    let accounts = account_infos(rows);
    assert(accounts@.len() == infos_view(accounts@).len());
    let (k, activate) = match find_active(rows) {
        Some(i) => (i, None),
        None => (0, Some(rows[0].id.clone())),
    };
    let expiry: i64 = match rows[k].token_expiry {
        Some(e) => e,
        None => 0,
    };
    if expiry > now {
        AuthCheck { activate, next: AuthNext::Ready(auth_status(accounts, true)) }
    } else {
        AuthCheck {
            activate,
            next: AuthNext::Refresh { account_id: rows[k].id.clone(), accounts },
        }
    }
}

/// Whether a stored access token is refreshed before use: it has an expiry
/// and that is less than five minutes away.
pub fn token_needs_refresh(expiry: Option<i64>, now: i64) -> (r: bool)
    ensures
        r == match expiry {
            Some(e) => e > 0 && e - 300 < now,
            None => false,
        },
{
    match expiry {
        Some(e) => e > 0 && e - 300 < now,
        None => false,
    }
}

/// What a failed token refresh leads to.
#[derive(Debug)]
pub struct RefreshFailure {
    /// The grant was revoked: the stored tokens are deleted.
    pub revoke_tokens: bool,
    pub message: String,
}

/// The outcome of a token endpoint error reply: `invalid_grant` revokes the
/// stored tokens and asks for a new sign-in; any other error reports the
/// reply.
pub fn refresh_failure(body: &str) -> (r: RefreshFailure)
    ensures
        r.revoke_tokens == (json_str_member(body@, "error"@) == Some("invalid_grant"@)),
        r.revoke_tokens ==> r.message@ == "invalid_grant: Please re-authenticate your account."@,
        !r.revoke_tokens ==> r.message@ == "Token refresh failed: "@ + json_echo(body@),
{
    let code = str_member(body, "error");
    let revoked = match &code {
        Some(c) => str_eq(c.as_str(), "invalid_grant"),
        None => false,
    };
    if revoked {
        RefreshFailure {
            revoke_tokens: true,
            message: "invalid_grant: Please re-authenticate your account.".to_owned(),
        }
    } else {
        let mut m = chars_of("Token refresh failed: ");
        push_str(&mut m, echo_json(body).as_str());
        RefreshFailure { revoke_tokens: false, message: string_of(m.as_slice()) }
    }
}

/// The token lifetime assumed when the reply gives none.
pub const DEFAULT_TOKEN_LIFETIME: i64 = 3500;

/// A refreshed access token and its expiry.
#[derive(Debug)]
pub struct TokenUpdate {
    pub access_token: String,
    pub expiry: i64,
}

/// Reads a successful token endpoint reply at time `now`: the new access
/// token (empty when missing) and its expiry, `now` plus `expires_in` (3500
/// seconds when missing). `None` when that sum does not fit in an `i64`.
pub fn token_update(body: &str, now: i64) -> (r: Option<TokenUpdate>)
    ensures
        ({
            let lifetime: int = match json_i64_member(body@, "expires_in"@) {
                Some(v) => v as int,
                None => 3500,
            };
            &&& (r is Some) == (i64::MIN <= now + lifetime <= i64::MAX)
            &&& r matches Some(u) ==> u.expiry == now + lifetime && u.access_token@ == text_or_empty(
                json_str_member(body@, "access_token"@),
            )
        }),
{
    let token = match str_member(body, "access_token") {
        Some(t) => t,
        None => string_of(Vec::<char>::new().as_slice()),
    };
    let lifetime: i64 = match i64_member(body, "expires_in") {
        Some(v) => v,
        None => DEFAULT_TOKEN_LIFETIME,
    };
    match now.checked_add(lifetime) {
        Some(e) => Some(TokenUpdate { access_token: token, expiry: e }),
        None => None,
    }
}

/// The profile fields of a userinfo reply.
#[derive(Debug)]
pub struct Profile {
    pub email: String,
    pub name: String,
    pub picture: String,
}

/// The email a new sign-in is stored under when the profile has none.
pub open spec fn unknown_email() -> Seq<char> {
    "unknown@gmail.com"@
}

/// The profile of a userinfo reply (`None` when the request failed):
/// missing members are empty, a missing email is "unknown@gmail.com".
pub fn sign_in_profile(body: &Option<String>) -> (r: Profile)
    ensures
        match body {
            Some(b) => {
                &&& r.email@ == match json_str_member(b@, "email"@) {
                    Some(e) => e,
                    None => unknown_email(),
                }
                &&& r.name@ == text_or_empty(json_str_member(b@, "name"@))
                &&& r.picture@ == text_or_empty(json_str_member(b@, "picture"@))
            },
            None => r.email@ == unknown_email() && r.name@.len() == 0 && r.picture@.len() == 0,
        },
{
    match body {
        Some(b) => Profile {
            email: match str_member(b.as_str(), "email") {
                Some(e) => e,
                None => "unknown@gmail.com".to_owned(),
            },
            name: text_of(&str_member(b.as_str(), "name")),
            picture: text_of(&str_member(b.as_str(), "picture")),
        },
        None => Profile {
            email: "unknown@gmail.com".to_owned(),
            name: string_of(Vec::<char>::new().as_slice()),
            picture: string_of(Vec::<char>::new().as_slice()),
        },
    }
}

/// The profile members of a userinfo reply read after a token refresh,
/// each empty when missing.
pub fn refreshed_profile(body: &str) -> (r: Profile)
    ensures
        r.email@ == text_or_empty(json_str_member(body@, "email"@)),
        r.name@ == text_or_empty(json_str_member(body@, "name"@)),
        r.picture@ == text_or_empty(json_str_member(body@, "picture"@)),
{
    Profile {
        email: text_of(&str_member(body, "email")),
        name: text_of(&str_member(body, "name")),
        picture: text_of(&str_member(body, "picture")),
    }
}

/// The expiry stored with a new sign-in: 3500 seconds after `now`.
pub fn sign_in_expiry(now: i64) -> (r: i64)
    requires
        now <= i64::MAX - 3500,
    ensures
        r == now + 3500,
{
    now + DEFAULT_TOKEN_LIFETIME
}

/// One whitespace step of `split_whitespace`: (words so far, current word).
pub open spec fn word_step(st: (Seq<Seq<char>>, Seq<char>), c: char) -> (Seq<Seq<char>>, Seq<char>) {
    if is_ws(c) {
        if st.1.len() > 0 {
            (st.0.push(st.1), Seq::empty())
        } else {
            st
        }
    } else {
        (st.0, st.1.push(c))
    }
}

pub open spec fn word_prefix(s: Seq<char>) -> (Seq<Seq<char>>, Seq<char>)
    decreases s.len(),
{
    if s.len() == 0 {
        (Seq::empty(), Seq::empty())
    } else {
        word_step(word_prefix(s.drop_last()), s.last())
    }
}

/// The words of `s` between runs of whitespace, as `str::split_whitespace`.
pub open spec fn words(s: Seq<char>) -> Seq<Seq<char>> {
    let st = word_prefix(s);
    if st.1.len() > 0 {
        st.0.push(st.1)
    } else {
        st.0
    }
}

fn split_words(s: &[char]) -> (r: Vec<Vec<char>>)
    ensures
        r@.map_values(|w: Vec<char>| w@) == words(s@),
{
    let mut out: Vec<Vec<char>> = Vec::new();
    let mut cur: Vec<char> = Vec::new();
    let mut i: usize = 0;
    while i < s.len()
        invariant
            i <= s@.len(),
            (out@.map_values(|w: Vec<char>| w@), cur@) == word_prefix(s@.take(i as int)),
        decreases s.len() - i,
    {
        assert(s@.take(i + 1).drop_last() =~= s@.take(i as int));
        let ghost before = out@.map_values(|w: Vec<char>| w@);
        if is_whitespace(s[i]) {
            if cur.len() > 0 {
                let w = cur;
                out.push(w);
                cur = Vec::new();
                assert(out@.map_values(|w: Vec<char>| w@) =~= before.push(word_prefix(
                    s@.take(i as int),
                ).1));
            }
        } else {
            cur.push(s[i]);
        }
        i = i + 1;
    }
    assert(s@.take(s@.len() as int) =~= s@);
    if cur.len() > 0 {
        let ghost before = out@.map_values(|w: Vec<char>| w@);
        let w = cur;
        out.push(w);
        assert(out@.map_values(|w: Vec<char>| w@) =~= before.push(word_prefix(s@).1));
    }
    out
}

/// The `code` and `state` of an OAuth redirect.
#[derive(Debug)]
pub struct OAuthCallback {
    pub code: String,
    pub state: String,
}

/// One `key=value` pair of the redirect query: where a pair names `code`
/// or `state` (the text up to its first `=`, the value up to the next `=`),
/// it sets that member; later pairs win.
pub open spec fn callback_step(acc: (Seq<char>, Seq<char>), param: Seq<char>) -> (Seq<char>, Seq<char>) {
    let kv = split_char(param, '=');
    if kv.len() >= 2 && kv[0] == "code"@ {
        (kv[1], acc.1)
    } else if kv.len() >= 2 && kv[0] == "state"@ {
        (acc.0, kv[1])
    } else {
        acc
    }
}

pub open spec fn callback_params(params: Seq<Seq<char>>) -> (Seq<char>, Seq<char>)
    decreases params.len(),
{
    if params.len() == 0 {
        (Seq::empty(), Seq::empty())
    } else {
        callback_step(callback_params(params.drop_last()), params.last())
    }
}

/// The (code, state) of the request line the browser sends to the local
/// redirect listener: for a `GET`, the query of its target (the text
/// between the first and second `?`) is split at `&`; anything else gives
/// empty values.
pub open spec fn callback_of(line: Seq<char>) -> (Seq<char>, Seq<char>) {
    let ws = words(line);
    if line.len() >= 3 && line.take(3) == "GET"@ && ws.len() > 1 && split_char(ws[1], '?').len()
        > 1 {
        callback_params(split_char(split_char(ws[1], '?')[1], '&'))
    } else {
        (Seq::empty(), Seq::empty())
    }
}

/// Reads the authorization code and state from the redirect's request
/// line.
pub fn parse_oauth_callback(request_line: &str) -> (r: OAuthCallback)
    ensures
        (r.code@, r.state@) == callback_of(request_line@),
{
    let line = chars_of(request_line);
    let empty = OAuthCallback {
        code: string_of(Vec::<char>::new().as_slice()),
        state: string_of(Vec::<char>::new().as_slice()),
    };
    let get = chars_of("GET");
    proof {
        reveal_strlit("GET");
    }
    if !crate::text::starts_with(line.as_slice(), get.as_slice()) {
        return empty;
    }
    let ws = split_words(line.as_slice());
    if ws.len() <= 1 {
        return empty;
    }
    assert(ws@.map_values(|w: Vec<char>| w@)[1] == ws@[1]@);
    let parts = split(ws[1].as_slice(), '?');
    if parts.len() <= 1 {
        return empty;
    }
    let params = split(parts[1].as_slice(), '&');
    let ghost pv = split_char(split_char(ws@[1]@, '?')[1], '&');
    let mut code: Vec<char> = Vec::new();
    let mut state: Vec<char> = Vec::new();
    let mut i: usize = 0;
    while i < params.len()
        invariant
            i <= params@.len(),
            params@.len() == pv.len(),
            forall|k: int| 0 <= k < params@.len() ==> #[trigger] params@[k]@ == pv[k],
            (code@, state@) == callback_params(pv.take(i as int)),
        decreases params.len() - i,
    {
        proof {
            reveal_strlit("code");
            reveal_strlit("state");
        }
        assert(pv.take(i + 1).drop_last() =~= pv.take(i as int));
        assert(pv.take(i + 1).last() == params@[i as int]@);
        let kv = split(params[i].as_slice(), '=');
        if kv.len() >= 2 {
            let key = string_of(kv[0].as_slice());
            if str_eq(key.as_str(), "code") {
                code = kv[1].clone();
            } else if str_eq(key.as_str(), "state") {
                state = kv[1].clone();
            }
        }
        i = i + 1;
    }
    assert(pv.take(pv.len() as int) =~= pv);
    OAuthCallback { code: string_of(code.as_slice()), state: string_of(state.as_slice()) }
}

/// Accepts the redirect only when its state is the one sent.
pub fn check_oauth_state(state: &str, expected: &str) -> (r: Result<(), String>)
    ensures
        r is Ok <==> state@ == expected@,
        r matches Err(e) ==> e@ == "CSRF token mismatch"@,
{
    if str_eq(state, expected) {
        Ok(())
    } else {
        Err("CSRF token mismatch".to_owned())
    }
}

/// The labels a Gmail sync fetches: the requested one, or the inbox.
pub fn sync_target_label(label_id: &Option<String>) -> (r: String)
    ensures
        r@ == match opt_view(*label_id) {
            Some(l) => l,
            None => "INBOX"@,
        },
{
    match label_id {
        Some(l) => l.clone(),
        None => "INBOX".to_owned(),
    }
}

/// How many not yet downloaded threads a sync downloads at once: all of
/// them when body prefetching is on, otherwise at most 100.
pub fn hydration_batch_size(waiting: usize, prefetch: bool) -> (r: usize)
    ensures
        r == if prefetch {
            waiting
        } else if waiting < 100 {
            waiting
        } else {
            100
        },
{
    if prefetch {
        waiting
    } else if waiting < 100 {
        waiting
    } else {
        100
    }
}

/// Whether the body prefetch setting is on: only the text "true".
pub fn prefetch_enabled(setting: &Option<String>) -> (r: bool)
    ensures
        r == (opt_view(*setting) == Some("true"@)),
{
    match setting {
        Some(v) => str_eq(v.as_str(), "true"),
        None => false,
    }
}

/// The cache limit in megabytes: the setting read as a `u64`, 500 when
/// missing or unreadable.
pub fn cache_limit_mb(setting: &Option<String>) -> (r: u64)
    ensures
        r == match opt_view(*setting) {
            Some(v) => match crate::numbers::decimal_value(v, false) {
                Some(n) => if n <= u64::MAX {
                    n as u64
                } else {
                    500
                },
                None => 500,
            },
            None => 500,
        },
{
    match setting {
        Some(v) => match crate::numbers::parse_u64(v.as_str()) {
            Some(n) => n,
            None => 500,
        },
        None => 500,
    }
}

/// Whether old message bodies are evicted: the database file, in whole
/// megabytes, exceeds the limit.
pub fn cache_over_limit(db_bytes: u64, max_mb: u64) -> (r: bool)
    ensures
        r == (db_bytes / 1048576u64 > max_mb),
{
    db_bytes / 1048576 > max_mb
}

} // verus!
