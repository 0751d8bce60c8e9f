//! The SQL behind thread lists and counts, fetching a category from the
//! server, and the label changes of starring, reading and importance.

use crate::query::opt_view;
use crate::text::{
    chars_of, count_char, lemma_count_absent, lemma_count_concat, lemma_count_single, lowercase,
    push_all, push_str, str_eq, string_of, to_lowercase,
};
use crate::threads::{category_name, ThreadCategory};
use vstd::prelude::*;

verus! {

/// The columns of a listed thread.
pub open spec fn list_select() -> Seq<char> {
    "SELECT t.id, t.snippet, t.history_id, t.unread, t.sender as sender, t.subject as subject, t.latest_date as msg_date, EXISTS (SELECT 1 FROM thread_labels tl WHERE tl.thread_id = t.id AND tl.label_id = 'STARRED') as starred, (SELECT tls.label_id FROM thread_labels tls WHERE tls.thread_id = t.id AND tls.label_id IN ('YELLOW_STAR','ORANGE_STAR','RED_STAR','PURPLE_STAR','BLUE_STAR','GREEN_STAR','GREEN_CIRCLE','RED_CIRCLE','ORANGE_CIRCLE','YELLOW_CIRCLE','BLUE_CIRCLE','PURPLE_CIRCLE') LIMIT 1) as star_type, EXISTS (SELECT 1 FROM messages m6 WHERE m6.thread_id = t.id AND m6.has_attachments = 1) as has_attachments, EXISTS (SELECT 1 FROM thread_labels tl2 WHERE tl2.thread_id = t.id AND tl2.label_id = 'IMPORTANT') as important, t.account_id FROM threads t"@
}

/// The count of listed threads.
pub open spec fn count_select() -> Seq<char> {
    "SELECT COUNT(DISTINCT t.id) FROM threads t"@
}

/// The joins that narrow a list to a category or a label. A category wins
/// over a label: Primary is the inbox without the social and promotions
/// threads, Social and Promotions are inbox threads with that category
/// label, Important the threads labelled important.
pub open spec fn filter_joins(label: bool, category: Option<ThreadCategory>) -> Seq<char> {
    match category {
        Some(ThreadCategory::Primary) => " INNER JOIN thread_labels tl_inbox ON t.id = tl_inbox.thread_id AND tl_inbox.label_id = 'INBOX' LEFT JOIN thread_labels tl_social ON t.id = tl_social.thread_id AND tl_social.label_id = 'CATEGORY_SOCIAL' LEFT JOIN thread_labels tl_promo ON t.id = tl_promo.thread_id AND tl_promo.label_id = 'CATEGORY_PROMOTIONS'"@,
        Some(ThreadCategory::Social) => " INNER JOIN thread_labels tl ON t.id = tl.thread_id AND tl.label_id = 'CATEGORY_SOCIAL' INNER JOIN thread_labels tl_inbox ON t.id = tl_inbox.thread_id AND tl_inbox.label_id = 'INBOX'"@,
        Some(ThreadCategory::Promotions) => " INNER JOIN thread_labels tl ON t.id = tl.thread_id AND tl.label_id = 'CATEGORY_PROMOTIONS' INNER JOIN thread_labels tl_inbox ON t.id = tl_inbox.thread_id AND tl_inbox.label_id = 'INBOX'"@,
        Some(ThreadCategory::Important) => " INNER JOIN thread_labels tl ON t.id = tl.thread_id AND tl.label_id = 'IMPORTANT'"@,
        None => if label {
            " INNER JOIN thread_labels tl ON t.id = tl.thread_id AND tl.label_id = ?"@
        } else {
            Seq::empty()
        },
    }
}

/// `n` placeholders separated by ", ".
pub open spec fn placeholders(n: nat) -> Seq<char>
    decreases n,
{
    if n == 0 {
        Seq::empty()
    } else if n == 1 {
        "?"@
    } else {
        placeholders((n - 1) as nat) + ", ?"@
    }
}

/// The account condition: one account, or any of `n`.
pub open spec fn account_condition(single: bool, n: nat) -> Seq<char> {
    if single {
        "t.account_id = ?"@
    } else {
        "t.account_id IN ("@ + placeholders(n) + ")"@
    }
}

/// The full query of a thread list (`listing`) or count, for one account
/// (`single`) or `n` accounts: only threads whose metadata is synced, the
/// newest first, then paged.
pub open spec fn thread_query_sql(
    listing: bool,
    single: bool,
    n: nat,
    label: bool,
    category: Option<ThreadCategory>,
) -> Seq<char> {
    (if listing {
        list_select()
    } else {
        count_select()
    }) + filter_joins(label, category) + " WHERE "@ + account_condition(single, n)
        + " AND t.metadata_synced = 1"@ + if category == Some(ThreadCategory::Primary) {
        " AND tl_social.thread_id IS NULL AND tl_promo.thread_id IS NULL"@
    } else {
        Seq::empty()
    } + if listing {
        " ORDER BY COALESCE(t.latest_date, 0) DESC, t.rowid DESC LIMIT ? OFFSET ?"@
    } else {
        Seq::empty()
    }
}

pub open spec fn string_views(v: Seq<String>) -> Seq<Seq<char>> {
    v.map_values(|s: String| s@)
}

/// A thread list or count query and the values bound before the limit and
/// offset.
#[derive(Debug)]
pub struct ThreadQuery {
    pub sql: String,
    pub binds: Vec<String>,
}

fn push_placeholders(out: &mut Vec<char>, n: usize)
    ensures
        final(out)@ == old(out)@ + placeholders(n as nat),
{
    let ghost start = out@;
    let mut i: usize = 0;
    while i < n
        invariant
            i <= n,
            out@ == start + placeholders(i as nat),
        decreases n - i,
    {
        if i == 0 {
            push_str(out, "?");
        } else {
            push_str(out, ", ?");
        }
        proof {
            reveal_strlit("?");
            assert(placeholders((i + 1) as nat) == if i == 0 {
                "?"@
            } else {
                placeholders(i as nat) + ", ?"@
            });
        }
        i = i + 1;
    }
}

/// Builds the query of a thread list (`listing`) or count over the given
/// accounts (`single`: the one account of a per-account view), narrowed by
/// a category or else a label. The label, when used, is bound first, then
/// the accounts.
pub fn thread_query(
    listing: bool,
    single: bool,
    accounts: &Vec<String>,
    label_id: &Option<String>,
    category: Option<ThreadCategory>,
) -> (r: ThreadQuery)
    requires
        single ==> accounts@.len() == 1,
    ensures
        r.sql@ == thread_query_sql(
            listing,
            single,
            accounts@.len(),
            label_id is Some,
            category,
        ),
        string_views(r.binds@) == (if category is None && label_id is Some {
            seq![opt_view(*label_id)->0]
        } else {
            Seq::empty()
        }) + string_views(accounts@),
{
    let mut sql: Vec<char> = Vec::new();
    if listing {
        push_str(&mut sql, "SELECT t.id, t.snippet, t.history_id, t.unread, t.sender as sender, t.subject as subject, t.latest_date as msg_date, EXISTS (SELECT 1 FROM thread_labels tl WHERE tl.thread_id = t.id AND tl.label_id = 'STARRED') as starred, (SELECT tls.label_id FROM thread_labels tls WHERE tls.thread_id = t.id AND tls.label_id IN ('YELLOW_STAR','ORANGE_STAR','RED_STAR','PURPLE_STAR','BLUE_STAR','GREEN_STAR','GREEN_CIRCLE','RED_CIRCLE','ORANGE_CIRCLE','YELLOW_CIRCLE','BLUE_CIRCLE','PURPLE_CIRCLE') LIMIT 1) as star_type, EXISTS (SELECT 1 FROM messages m6 WHERE m6.thread_id = t.id AND m6.has_attachments = 1) as has_attachments, EXISTS (SELECT 1 FROM thread_labels tl2 WHERE tl2.thread_id = t.id AND tl2.label_id = 'IMPORTANT') as important, t.account_id FROM threads t");
    } else {
        push_str(&mut sql, "SELECT COUNT(DISTINCT t.id) FROM threads t");
    }
    let ghost s0 = sql@;
    let mut binds: Vec<String> = Vec::new();
    match category {
        Some(ThreadCategory::Primary) => push_str(&mut sql, " INNER JOIN thread_labels tl_inbox ON t.id = tl_inbox.thread_id AND tl_inbox.label_id = 'INBOX' LEFT JOIN thread_labels tl_social ON t.id = tl_social.thread_id AND tl_social.label_id = 'CATEGORY_SOCIAL' LEFT JOIN thread_labels tl_promo ON t.id = tl_promo.thread_id AND tl_promo.label_id = 'CATEGORY_PROMOTIONS'"),
        Some(ThreadCategory::Social) => push_str(&mut sql, " INNER JOIN thread_labels tl ON t.id = tl.thread_id AND tl.label_id = 'CATEGORY_SOCIAL' INNER JOIN thread_labels tl_inbox ON t.id = tl_inbox.thread_id AND tl_inbox.label_id = 'INBOX'"),
        Some(ThreadCategory::Promotions) => push_str(&mut sql, " INNER JOIN thread_labels tl ON t.id = tl.thread_id AND tl.label_id = 'CATEGORY_PROMOTIONS' INNER JOIN thread_labels tl_inbox ON t.id = tl_inbox.thread_id AND tl_inbox.label_id = 'INBOX'"),
        Some(ThreadCategory::Important) => push_str(&mut sql, " INNER JOIN thread_labels tl ON t.id = tl.thread_id AND tl.label_id = 'IMPORTANT'"),
        None => match label_id {
            Some(l) => {
                push_str(&mut sql, " INNER JOIN thread_labels tl ON t.id = tl.thread_id AND tl.label_id = ?");
                binds.push(l.clone());
            },
            None => {
                assert(sql@ =~= sql@ + Seq::<char>::empty());
            },
        },
    }
    let ghost s1 = sql@;
    assert(s1 == s0 + filter_joins(label_id is Some, category));
    push_str(&mut sql, " WHERE ");
    if single {
        push_str(&mut sql, "t.account_id = ?");
    } else {
        push_str(&mut sql, "t.account_id IN (");
        push_placeholders(&mut sql, accounts.len());
        push_str(&mut sql, ")");
    }
    let ghost s2 = sql@;
    assert(s2 =~= s1 + " WHERE "@ + account_condition(single, accounts@.len()));
    push_str(&mut sql, " AND t.metadata_synced = 1");
    let ghost s3 = sql@;
    match category {
        Some(ThreadCategory::Primary) => push_str(&mut sql, " AND tl_social.thread_id IS NULL AND tl_promo.thread_id IS NULL"),
        _ => {
            assert(sql@ =~= sql@ + Seq::<char>::empty());
        },
    }
    let ghost s4 = sql@;
    if listing {
        push_str(&mut sql, " ORDER BY COALESCE(t.latest_date, 0) DESC, t.rowid DESC LIMIT ? OFFSET ?");
    } else {
        assert(sql@ =~= sql@ + Seq::<char>::empty());
    }
    assert(sql@ =~= thread_query_sql(listing, single, accounts@.len(), label_id is Some, category));
    let ghost b0 = string_views(binds@);
    let mut i: usize = 0;
    while i < accounts.len()
        invariant
            i <= accounts@.len(),
            string_views(binds@) == b0 + string_views(accounts@).take(i as int),
        decreases accounts.len() - i,
    {
        let ghost prev = string_views(binds@);
        binds.push(accounts[i].clone());
        assert(string_views(binds@) =~= prev.push(accounts@[i as int]@));
        assert(string_views(accounts@).take(i + 1) =~= string_views(accounts@).take(i as int).push(
            accounts@[i as int]@,
        ));
        i = i + 1;
    }
    assert(string_views(accounts@).take(accounts@.len() as int) =~= string_views(accounts@));
    ThreadQuery { sql: string_of(sql.as_slice()), binds }
}

/// Where a category's threads are fetched from on the server: the label,
/// and the search that narrows the inbox to the category.
#[derive(Debug)]
pub struct CategoryFetch {
    pub label_id: String,
    pub query: Option<String>,
    /// The key of the category's paging token.
    pub token_key: String,
}

/// How a category is fetched: primary, social and promotions are inbox
/// searches for the category, important is its own label; any other name
/// is refused. Names are compared without regard to case.
pub fn category_fetch(account_id: &str, category: &str) -> (r: Result<CategoryFetch, String>)
    ensures
        ({
            let l = lowercase(category@);
            if l == "primary"@ || l == "social"@ || l == "promotions"@ {
                r matches Ok(f) && f.label_id@ == "INBOX"@ && opt_view(f.query) == Some(
                    "category:"@ + l,
                ) && f.token_key@ == account_id@ + ":category:"@ + l
            } else if l == "important"@ {
                r matches Ok(f) && f.label_id@ == "IMPORTANT"@ && f.query is None && f.token_key@
                    == account_id@ + ":category:"@ + l
            } else {
                r matches Err(e) && e@ == "Unknown category: "@ + category@
            }
        }),
{
    let l = to_lowercase(chars_of(category).as_slice());
    let ls = string_of(l.as_slice());
    let mut key = chars_of(account_id);
    push_str(&mut key, ":category:");
    push_all(&mut key, l.as_slice());
    let token_key = string_of(key.as_slice());
    if str_eq(ls.as_str(), "primary") || str_eq(ls.as_str(), "social") || str_eq(
        ls.as_str(),
        "promotions",
    ) {
        let mut q = chars_of("category:");
        push_all(&mut q, l.as_slice());
        Ok(CategoryFetch { label_id: "INBOX".to_owned(), query: Some(string_of(q.as_slice())), token_key })
    } else if str_eq(ls.as_str(), "important") {
        Ok(CategoryFetch { label_id: "IMPORTANT".to_owned(), query: None, token_key })
    } else {
        let mut m = chars_of("Unknown category: ");
        push_str(&mut m, category);
        Err(string_of(m.as_slice()))
    }
}

/// The star labels, in the order the star picker offers them.
pub open spec fn superstar_order() -> Seq<Seq<char>> {
    seq![
        "YELLOW_STAR"@,
        "ORANGE_STAR"@,
        "RED_STAR"@,
        "PURPLE_STAR"@,
        "BLUE_STAR"@,
        "GREEN_STAR"@,
        "GREEN_CIRCLE"@,
        "RED_CIRCLE"@,
        "ORANGE_CIRCLE"@,
        "YELLOW_CIRCLE"@,
        "BLUE_CIRCLE"@,
        "PURPLE_CIRCLE"@,
    ]
}

fn superstar_list() -> (r: Vec<&'static str>)
    ensures
        r@.map_values(|s: &str| s@) == superstar_order(),
{
    let v = vec![
        "YELLOW_STAR",
        "ORANGE_STAR",
        "RED_STAR",
        "PURPLE_STAR",
        "BLUE_STAR",
        "GREEN_STAR",
        "GREEN_CIRCLE",
        "RED_CIRCLE",
        "ORANGE_CIRCLE",
        "YELLOW_CIRCLE",
        "BLUE_CIRCLE",
        "PURPLE_CIRCLE",
    ];
    assert(v@.map_values(|s: &str| s@) =~= superstar_order());
    v
}

fn holds(v: &Vec<String>, s: &str) -> (r: bool)
    ensures
        r == string_views(v@).contains(s@),
{
    let mut i: usize = 0;
    while i < v.len()
        invariant
            i <= v@.len(),
            forall|k: int| 0 <= k < i ==> string_views(v@)[k] != s@,
        decreases v.len() - i,
    {
        if str_eq(v[i].as_str(), s) {
            assert(string_views(v@)[i as int] == s@);
            return true;
        }
        i = i + 1;
    }
    false
}

/// The star labels an account has, in picker order.
pub fn available_superstars(existing: &Vec<String>) -> (r: Vec<String>)
    ensures
        string_views(r@) == superstar_order().filter(|s: Seq<char>| string_views(existing@).contains(s)),
{
    let order = superstar_list();
    let ghost ov = order@.map_values(|s: &str| s@);
    let ghost keep = |s: Seq<char>| string_views(existing@).contains(s);
    let mut out: Vec<String> = Vec::new();
    let mut i: usize = 0;
    while i < order.len()
        invariant
            i <= order@.len(),
            ov == order@.map_values(|s: &str| s@),
            keep == (|s: Seq<char>| string_views(existing@).contains(s)),
            string_views(out@) == ov.take(i as int).filter(keep),
        decreases order.len() - i,
    {
        proof {
            reveal_with_fuel(Seq::<_>::filter, 1);
            assert(ov.take(i + 1).drop_last() =~= ov.take(i as int));
        }
        if holds(existing, order[i]) {
            let ghost prev = string_views(out@);
            out.push(order[i].to_owned());
            assert(string_views(out@) =~= prev.push(ov[i as int]));
        }
        i = i + 1;
    }
    assert(ov.take(ov.len() as int) =~= ov);
    out
}

/// The labels added and removed on a thread.
#[derive(Debug)]
pub struct LabelChange {
    pub add: Vec<String>,
    pub remove: Vec<String>,
}

/// The labels starring adds: STARRED and the star label; none when
/// unstarring.
pub open spec fn star_adds(star_label: Option<Seq<char>>) -> Seq<Seq<char>> {
    match star_label {
        Some(l) => seq!["STARRED"@, l],
        None => Seq::empty(),
    }
}

/// The test "is not among `adds`".
pub open spec fn not_added(adds: Seq<Seq<char>>) -> spec_fn(Seq<char>) -> bool {
    |s: Seq<char>| !adds.contains(s)
}

/// The labels starring removes: the existing star labels it does not add,
/// and STARRED when it does not add that.
pub open spec fn star_removes(existing: Seq<Seq<char>>, adds: Seq<Seq<char>>) -> Seq<Seq<char>> {
    existing.filter(not_added(adds)) + if adds.contains("STARRED"@) {
        Seq::empty()
    } else {
        seq!["STARRED"@]
    }
}

/// Starring or unstarring never adds and removes the same label, and leaves
/// the thread with at most the one chosen star label: every other existing
/// star label is removed.
pub proof fn law_star_change(existing: Seq<Seq<char>>, star_label: Option<Seq<char>>)
    ensures
        forall|s: Seq<char>|
            !(star_adds(star_label).contains(s) && #[trigger] star_removes(
                existing,
                star_adds(star_label),
            ).contains(s)),
        forall|i: int|
            0 <= i < existing.len() && Some(existing[i]) != star_label && existing[i] != "STARRED"@
                ==> star_removes(existing, star_adds(star_label)).contains(#[trigger] existing[i]),
{
    broadcast use vstd::seq_lib::group_filter_ensures;

    let adds = star_adds(star_label);
    let f = existing.filter(not_added(adds));
    let tail = if adds.contains("STARRED"@) {
        Seq::<Seq<char>>::empty()
    } else {
        seq!["STARRED"@]
    };
    assert forall|s: Seq<char>| !(adds.contains(s) && #[trigger] star_removes(existing, adds).contains(s)) by {
        if adds.contains(s) && star_removes(existing, adds).contains(s) {
            let k: int = choose|k: int| 0 <= k < (f + tail).len() && (f + tail)[k] == s;
            if k < f.len() {
                assert(not_added(adds)(f[k]));
            } else {
                assert(tail.len() == 1 && tail[0] == "STARRED"@);
            }
        }
    }
    assert forall|i: int|
        0 <= i < existing.len() && Some(existing[i]) != star_label && existing[i] != "STARRED"@
            implies star_removes(existing, adds).contains(#[trigger] existing[i]) by {
        assert(!adds.contains(existing[i])) by {
            if adds.contains(existing[i]) {
                let k: int = choose|k: int| 0 <= k < adds.len() && adds[k] == existing[i];
            }
        }
        existing.lemma_filter_contains(not_added(adds), i);
        let j: int = choose|j: int| 0 <= j < f.len() && f[j] == existing[i];
        assert((f + tail)[j] == existing[i]);
    }
}

/// Starring a thread with a star label (or unstarring it, `None`): the
/// star adds STARRED and the star label; the account's other star labels
/// are removed, and STARRED too when unstarring.
pub fn star_change(existing_stars: &Vec<String>, star_label_id: &Option<String>) -> (r: LabelChange)
    ensures
        string_views(r.add@) == star_adds(opt_view(*star_label_id)),
        string_views(r.remove@) == star_removes(string_views(existing_stars@), string_views(r.add@)),
{
    let mut add: Vec<String> = Vec::new();
    match star_label_id {
        Some(l) => {
            add.push("STARRED".to_owned());
            add.push(l.clone());
        },
        None => {},
    }
    let ghost av = string_views(add@);
    assert(av =~= match opt_view(*star_label_id) {
        Some(l) => seq!["STARRED"@, l],
        None => Seq::<Seq<char>>::empty(),
    });
    let ghost ev = string_views(existing_stars@);
    let ghost keep = not_added(av);
    let mut remove: Vec<String> = Vec::new();
    let mut i: usize = 0;
    while i < existing_stars.len()
        invariant
            i <= existing_stars@.len(),
            ev == string_views(existing_stars@),
            av == string_views(add@),
            keep == not_added(av),
            string_views(remove@) == ev.take(i as int).filter(keep),
        decreases existing_stars.len() - i,
    {
        proof {
            reveal_with_fuel(Seq::<_>::filter, 1);
            assert(ev.take(i + 1).drop_last() =~= ev.take(i as int));
        }
        if !holds(&add, existing_stars[i].as_str()) {
            let ghost prev = string_views(remove@);
            remove.push(existing_stars[i].clone());
            assert(string_views(remove@) =~= prev.push(ev[i as int]));
        }
        i = i + 1;
    }
    assert(ev.take(ev.len() as int) =~= ev);
    let ghost kept = string_views(remove@);
    if !holds(&add, "STARRED") {
        remove.push("STARRED".to_owned());
        assert(string_views(remove@) =~= kept + seq!["STARRED"@]);
    } else {
        assert(string_views(remove@) =~= kept + Seq::<Seq<char>>::empty());
    }
    LabelChange { add, remove }
}

/// The change that marks a thread read (removes UNREAD) or unread (adds
/// it).
pub fn read_change(is_read: bool) -> (r: LabelChange)
    ensures
        is_read ==> string_views(r.add@) == Seq::<Seq<char>>::empty() && string_views(r.remove@)
            == seq!["UNREAD"@],
        !is_read ==> string_views(r.add@) == seq!["UNREAD"@] && string_views(r.remove@)
            == Seq::<Seq<char>>::empty(),
{
    let mut l: Vec<String> = Vec::new();
    l.push("UNREAD".to_owned());
    assert(string_views(l@) =~= seq!["UNREAD"@]);
    let e: Vec<String> = Vec::new();
    assert(string_views(e@) =~= Seq::<Seq<char>>::empty());
    if is_read {
        LabelChange { add: e, remove: l }
    } else {
        LabelChange { add: l, remove: e }
    }
}

/// The change that marks a thread important (adds IMPORTANT) or not.
pub fn importance_change(important: bool) -> (r: LabelChange)
    ensures
        important ==> string_views(r.add@) == seq!["IMPORTANT"@] && string_views(r.remove@)
            == Seq::<Seq<char>>::empty(),
        !important ==> string_views(r.add@) == Seq::<Seq<char>>::empty() && string_views(r.remove@)
            == seq!["IMPORTANT"@],
{
    let mut l: Vec<String> = Vec::new();
    l.push("IMPORTANT".to_owned());
    assert(string_views(l@) =~= seq!["IMPORTANT"@]);
    let e: Vec<String> = Vec::new();
    assert(string_views(e@) =~= Seq::<Seq<char>>::empty());
    if important {
        LabelChange { add: l, remove: e }
    } else {
        LabelChange { add: e, remove: l }
    }
}

/// The change that archives a thread: it leaves the inbox.
pub fn archive_change() -> (r: LabelChange)
    ensures
        string_views(r.add@) == Seq::<Seq<char>>::empty(),
        string_views(r.remove@) == seq!["INBOX"@],
{
    let mut l: Vec<String> = Vec::new();
    l.push("INBOX".to_owned());
    assert(string_views(l@) =~= seq!["INBOX"@]);
    let e: Vec<String> = Vec::new();
    assert(string_views(e@) =~= Seq::<Seq<char>>::empty());
    LabelChange { add: e, remove: l }
}


proof fn lemma_placeholders_count(n: nat)
    ensures
        count_char(placeholders(n), '?') == n,
    decreases n,
{
    reveal_strlit("?");
    reveal_strlit(", ?");
    lemma_count_single('?');
    if n == 1 {
        assert("?"@ =~= seq!['?']);
    } else if n > 1 {
        lemma_placeholders_count((n - 1) as nat);
        lemma_count_concat(placeholders((n - 1) as nat), ", ?"@, '?');
        assert(", ?"@ =~= seq![',', ' '] + seq!['?']);
        assert(!seq![',', ' '].contains('?'));
        lemma_count_absent(seq![',', ' '], '?');
        lemma_count_concat(seq![',', ' '], seq!['?'], '?');
    }
}

/// Every placeholder of a thread query is bound: one for the label when a
/// label (and no category) narrows the list, one per account, and, for a
/// list, two for the page's limit and offset.
pub proof fn law_thread_query_placeholders(
    listing: bool,
    single: bool,
    n: nat,
    label: bool,
    category: Option<ThreadCategory>,
)
    requires
        single ==> n == 1,
    ensures
        count_char(thread_query_sql(listing, single, n, label, category), '?') == (if category is None
            && label {
            1nat
        } else {
            0nat
        }) + n + if listing {
            2nat
        } else {
            0nat
        },
{
    reveal_strlit("SELECT t.id, t.snippet, t.history_id, t.unread, t.sender as sender, t.subject as subject, t.latest_date as msg_date, EXISTS (SELECT 1 FROM thread_labels tl WHERE tl.thread_id = t.id AND tl.label_id = 'STARRED') as starred, (SELECT tls.label_id FROM thread_labels tls WHERE tls.thread_id = t.id AND tls.label_id IN ('YELLOW_STAR','ORANGE_STAR','RED_STAR','PURPLE_STAR','BLUE_STAR','GREEN_STAR','GREEN_CIRCLE','RED_CIRCLE','ORANGE_CIRCLE','YELLOW_CIRCLE','BLUE_CIRCLE','PURPLE_CIRCLE') LIMIT 1) as star_type, EXISTS (SELECT 1 FROM messages m6 WHERE m6.thread_id = t.id AND m6.has_attachments = 1) as has_attachments, EXISTS (SELECT 1 FROM thread_labels tl2 WHERE tl2.thread_id = t.id AND tl2.label_id = 'IMPORTANT') as important, t.account_id FROM threads t");
    reveal_strlit("SELECT COUNT(DISTINCT t.id) FROM threads t");
    reveal_strlit(" INNER JOIN thread_labels tl_inbox ON t.id = tl_inbox.thread_id AND tl_inbox.label_id = 'INBOX' LEFT JOIN thread_labels tl_social ON t.id = tl_social.thread_id AND tl_social.label_id = 'CATEGORY_SOCIAL' LEFT JOIN thread_labels tl_promo ON t.id = tl_promo.thread_id AND tl_promo.label_id = 'CATEGORY_PROMOTIONS'");
    reveal_strlit(" INNER JOIN thread_labels tl ON t.id = tl.thread_id AND tl.label_id = 'CATEGORY_SOCIAL' INNER JOIN thread_labels tl_inbox ON t.id = tl_inbox.thread_id AND tl_inbox.label_id = 'INBOX'");
    reveal_strlit(" INNER JOIN thread_labels tl ON t.id = tl.thread_id AND tl.label_id = 'CATEGORY_PROMOTIONS' INNER JOIN thread_labels tl_inbox ON t.id = tl_inbox.thread_id AND tl_inbox.label_id = 'INBOX'");
    reveal_strlit(" INNER JOIN thread_labels tl ON t.id = tl.thread_id AND tl.label_id = 'IMPORTANT'");
    reveal_strlit(" INNER JOIN thread_labels tl ON t.id = tl.thread_id AND tl.label_id = ?");
    reveal_strlit(" WHERE ");
    reveal_strlit("t.account_id = ?");
    reveal_strlit("t.account_id IN (");
    reveal_strlit(")");
    reveal_strlit(" AND t.metadata_synced = 1");
    reveal_strlit(" AND tl_social.thread_id IS NULL AND tl_promo.thread_id IS NULL");
    reveal_strlit(" ORDER BY COALESCE(t.latest_date, 0) DESC, t.rowid DESC LIMIT ? OFFSET ?");
    let sel = if listing {
        list_select()
    } else {
        count_select()
    };
    let joins = filter_joins(label, category);
    let acc = account_condition(single, n);
    let primary = if category == Some(ThreadCategory::Primary) {
        " AND tl_social.thread_id IS NULL AND tl_promo.thread_id IS NULL"@
    } else {
        Seq::<char>::empty()
    };
    let page = if listing {
        " ORDER BY COALESCE(t.latest_date, 0) DESC, t.rowid DESC LIMIT ? OFFSET ?"@
    } else {
        Seq::<char>::empty()
    };
    assert(!sel.contains('?'));
    lemma_count_absent(sel, '?');
    if category is None && label {
        assert(count_char(joins, '?') == 1) by {
            let j = joins;
            let k = 70int;
            assert(j.len() == 71 && j[k] == '?');
            assert(!j.take(k).contains('?'));
            lemma_count_absent(j.take(k), '?');
            assert(j =~= j.take(k) + seq!['?']);
            lemma_count_concat(j.take(k), seq!['?'], '?');
            lemma_count_single('?');
        }
    } else {
        assert(!joins.contains('?'));
        lemma_count_absent(joins, '?');
    }
    assert(!" WHERE "@.contains('?'));
    lemma_count_absent(" WHERE "@, '?');
    if single {
        assert(count_char(acc, '?') == 1) by {
            let a = acc.take(15);
            assert(acc.len() == 16 && acc[15] == '?');
            assert(acc =~= a + seq!['?']);
            assert(!a.contains('?'));
            lemma_count_absent(a, '?');
            lemma_count_concat(a, seq!['?'], '?');
            lemma_count_single('?');
        }
    } else {
        lemma_placeholders_count(n);
        assert(!"t.account_id IN ("@.contains('?'));
        assert(!")"@.contains('?'));
        lemma_count_absent("t.account_id IN ("@, '?');
        lemma_count_absent(")"@, '?');
        lemma_count_concat("t.account_id IN ("@, placeholders(n), '?');
        lemma_count_concat("t.account_id IN ("@ + placeholders(n), ")"@, '?');
    }
    assert(!" AND t.metadata_synced = 1"@.contains('?'));
    lemma_count_absent(" AND t.metadata_synced = 1"@, '?');
    assert(!primary.contains('?'));
    lemma_count_absent(primary, '?');
    if listing {
        assert(count_char(page, '?') == 2) by {
            let p = page;
            let a = p.take(62);
            let b = p.subrange(63, 71);
            assert(p.len() == 72 && p[62] == '?' && p[71] == '?');
            assert(p =~= a + seq!['?'] + b + seq!['?']);
            assert(!a.contains('?'));
            assert(!b.contains('?'));
            lemma_count_absent(a, '?');
            lemma_count_absent(b, '?');
            lemma_count_single('?');
            lemma_count_concat(a, seq!['?'], '?');
            lemma_count_concat(a + seq!['?'], b, '?');
            lemma_count_concat(a + seq!['?'] + b, seq!['?'], '?');
        }
    } else {
        lemma_count_absent(page, '?');
    }
    let t1 = sel + joins;
    let t2 = t1 + " WHERE "@;
    let t3 = t2 + acc;
    let t4 = t3 + " AND t.metadata_synced = 1"@;
    let t5 = t4 + primary;
    lemma_count_concat(sel, joins, '?');
    lemma_count_concat(t1, " WHERE "@, '?');
    lemma_count_concat(t2, acc, '?');
    lemma_count_concat(t3, " AND t.metadata_synced = 1"@, '?');
    lemma_count_concat(t4, primary, '?');
    lemma_count_concat(t5, page, '?');
}

} // verus!
