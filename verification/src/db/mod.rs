//! Database backend selection and SQL placeholder rewriting.
use vstd::prelude::*;
use std::borrow::Cow;
use crate::decimal::{decimal, push_decimal};
use crate::text::{contains_char, from_chars, has_char, starts_with_str, to_chars};
use crate::crypto::{hex_encode, hex_lower, sha256_digest, sha256_spec};
use vstd::utf8::encode_utf8;
use vstd::relations::{sorted_by, total_ordering};
use crate::decimal::{push_signed_decimal, signed_decimal};
use crate::text::{join, join_chars, views_of};

pub mod models;

verus! {

/// Database backend detected from the connection URL scheme.
#[derive(Debug, Clone, Copy, PartialEq, Eq, Structural)]
pub enum DbBackend {
    Sqlite,
    Postgres,
    Mysql,
}

pub open spec fn has_prefix(s: Seq<char>, p: Seq<char>) -> bool {
    p.len() <= s.len() && s.take(p.len() as int) == p
}

/// "postgres…" selects PostgreSQL, "mysql…" MySQL, anything else SQLite.
pub open spec fn backend_for_url(url: Seq<char>) -> DbBackend {
    if has_prefix(url, seq!['p', 'o', 's', 't', 'g', 'r', 'e', 's']) {
        DbBackend::Postgres
    } else if has_prefix(url, seq!['m', 'y', 's', 'q', 'l']) {
        DbBackend::Mysql
    } else {
        DbBackend::Sqlite
    }
}

impl DbBackend {
    pub fn from_url(url: &str) -> (b: Self)
        ensures
            b == backend_for_url(url@),
    {
        let postgres = "postgres";
        let mysql = "mysql";
        proof {
            reveal_strlit("postgres");
            reveal_strlit("mysql");
            assert(postgres@ =~= seq!['p', 'o', 's', 't', 'g', 'r', 'e', 's']);
            assert(mysql@ =~= seq!['m', 'y', 's', 'q', 'l']);
        }
        if starts_with_str(url, postgres) {
            DbBackend::Postgres
        } else if starts_with_str(url, mysql) {
            DbBackend::Mysql
        } else {
            DbBackend::Sqlite
        }
    }
}

/// Output text, placeholders numbered so far, and whether a quote is open,
/// after rewriting a prefix of the query.
pub open spec fn rewrite_state(s: Seq<char>) -> (Seq<char>, nat, bool)
    decreases s.len(),
{
    if s.len() == 0 {
        (Seq::empty(), 0, false)
    } else {
        let (out, n, q) = rewrite_state(s.drop_last());
        let c = s.last();
        if c == '\'' {
            (out.push(c), n, !q)
        } else if c == '?' && !q {
            (out.push('$') + decimal(n + 1), n + 1, q)
        } else {
            (out.push(c), n, q)
        }
    }
}

/// PostgreSQL gets `?` outside single-quoted literals replaced by `$1, $2, …`;
/// other backends, and queries without `?`, are unchanged.
pub open spec fn rewrite_spec(sql: Seq<char>, backend: DbBackend) -> Seq<char> {
    if backend != DbBackend::Postgres || !contains_char(sql, '?') {
        sql
    } else {
        rewrite_state(sql).0
    }
}

proof fn lemma_rewrite_count_bound(s: Seq<char>)
    ensures
        rewrite_state(s).1 <= s.len(),
    decreases s.len(),
{
    if s.len() > 0 {
        lemma_rewrite_count_bound(s.drop_last());
    }
}

/// Rewrite `?` placeholders to `$1, $2, ...` for PostgreSQL.
/// Skips `?` inside single-quoted string literals.
/// Returns `Cow::Borrowed` when no rewriting is needed.
pub fn rewrite_placeholders<'a>(sql: &'a str, backend: DbBackend) -> (r: Cow<'a, str>)
    requires
        sql@.len() < u32::MAX,
    ensures
        r@ == rewrite_spec(sql@, backend),
        (backend != DbBackend::Postgres || !contains_char(sql@, '?')) <==> r is Borrowed,
{
    let chars = to_chars(sql);
    if backend != DbBackend::Postgres || !has_char(chars.as_slice(), '?') {
        return Cow::Borrowed(sql);
    }
    let mut out: Vec<char> = Vec::new();
    let mut n: u32 = 0;
    let mut in_quote = false;
    let mut i: usize = 0;
    while i < chars.len()
        invariant
            chars@ == sql@,
            sql@.len() < u32::MAX,
            i <= chars.len(),
            rewrite_state(chars@.take(i as int)) == (out@, n as nat, in_quote),
        decreases chars.len() - i,
    {
        let ch = chars[i];
        proof {
            let t = chars@.take(i + 1);
            assert(t.drop_last() =~= chars@.take(i as int));
            lemma_rewrite_count_bound(chars@.take(i as int));
        }
        if ch == '\'' {
            in_quote = !in_quote;
            out.push(ch);
        } else if ch == '?' && !in_quote {
            n += 1;
            out.push('$');
            push_decimal(&mut out, n as u64);
        } else {
            out.push(ch);
        }
        i += 1;
    }
    proof {
        assert(chars@.take(chars.len() as int) =~= chars@);
    }
    Cow::Owned(from_chars(out.as_slice()))
}

/// The key of a suppressed book on MySQL: the SHA-256 of the path's bytes,
/// a zero byte and the file name's bytes, in lower-case hex.
pub open spec fn suppression_key_spec(path: Seq<u8>, filename: Seq<u8>) -> Seq<char> {
    hex_lower(sha256_spec(path + seq![0u8] + filename))
}

pub fn suppression_key(path: &str, filename: &str) -> (r: String)
    ensures
        r@ == suppression_key_spec(encode_utf8(path@), encode_utf8(filename@)),
{
    let p = path.as_bytes();
    let f = filename.as_bytes();
    let mut data: Vec<u8> = Vec::new();
    let mut i: usize = 0;
    while i < p.len()
        invariant
            i <= p.len(),
            p@ == encode_utf8(path@),
            data@ == p@.take(i as int),
        decreases p.len() - i,
    {
        data.push(p[i]);
        proof {
            assert(p@.take(i + 1) =~= p@.take(i as int).push(p@[i as int]));
        }
        i += 1;
    }
    data.push(0u8);
    let mut j: usize = 0;
    proof {
        assert(p@.take(p.len() as int) =~= p@);
        assert(data@ =~= p@ + seq![0u8] + f@.take(0));
    }
    while j < f.len()
        invariant
            j <= f.len(),
            p@ == encode_utf8(path@),
            f@ == encode_utf8(filename@),
            data@ == p@ + seq![0u8] + f@.take(j as int),
        decreases f.len() - j,
    {
        data.push(f[j]);
        proof {
            assert(f@.take(j + 1) =~= f@.take(j as int).push(f@[j as int]));
            assert(data@ =~= p@ + seq![0u8] + f@.take(j + 1));
        }
        j += 1;
    }
    proof {
        assert(f@.take(f.len() as int) =~= f@);
    }
    let digest = sha256_digest(data.as_slice());
    hex_encode(digest.as_slice())
}

pub open spec fn id_leq() -> spec_fn(i64, i64) -> bool {
    |a: i64, b: i64| a <= b
}

/// The author key of a book: the ids of its authors in ascending order, in
/// decimal, separated by commas (with the title, it detects duplicate
/// editions).
pub open spec fn author_key_spec(ids: Seq<i64>) -> Seq<char> {
    join(ids.sort_by(id_leq()).map_values(|x: i64| signed_decimal(x as int)), seq![','])
}

proof fn lemma_id_leq_total()
    ensures
        total_ordering(id_leq()),
{
}

/// The ids in ascending order.
fn sort_ids(ids: &Vec<i64>) -> (r: Vec<i64>)
    ensures
        r@ == ids@.sort_by(id_leq()),
{
    broadcast use vstd::seq_lib::group_to_multiset_ensures;
    let mut out: Vec<i64> = Vec::new();
    let mut i: usize = 0;
    proof {
        assert(ids@.take(0) =~= Seq::<i64>::empty());
    }
    while i < ids.len()
        invariant
            i <= ids.len(),
            sorted_by(out@, id_leq()),
            out@.to_multiset() == ids@.take(i as int).to_multiset(),
        decreases ids.len() - i,
    {
        let x = ids[i];
        let mut pos: usize = 0;
        while pos < out.len() && out[pos] <= x
            invariant
                pos <= out.len(),
                forall|k: int| 0 <= k < pos ==> out@[k] <= x,
            decreases out.len() - pos,
        {
            pos += 1;
        }
        let ghost before = out@;
        out.insert(pos, x);
        proof {
            vstd::seq_lib::to_multiset_insert(before, pos as int, x);
            assert(out@ == before.insert(pos as int, x));
            assert(ids@.take(i + 1) =~= ids@.take(i as int).push(x));
            ids@.take(i as int).to_multiset_ensures();
            assert(ids@.take(i as int).push(x).to_multiset() =~= ids@.take(i as int).to_multiset().insert(x));
            assert(out@.to_multiset() =~= ids@.take(i + 1).to_multiset());
            assert forall|a: int, b: int| 0 <= a < b < out@.len() implies #[trigger] (id_leq())(
                out@[a],
                out@[b],
            ) by {
                if b < pos {
                    assert(out@[a] == before[a] && out@[b] == before[b]);
                    assert((id_leq())(before[a], before[b]));
                } else if b == pos {
                    assert(out@[a] == before[a]);
                } else if a < pos {
                    assert(out@[a] == before[a] && out@[b] == before[b - 1]);
                    assert(before[a] <= x);
                    if pos < before.len() {
                        assert(before[pos as int] > x);
                        if b - 1 > pos {
                            assert((id_leq())(before[pos as int], before[b - 1]));
                        }
                    }
                } else if a == pos {
                    assert(out@[b] == before[b - 1]);
                    assert(before[pos as int] > x);
                    if b - 1 > pos {
                        assert((id_leq())(before[pos as int], before[b - 1]));
                    }
                } else {
                    assert(out@[a] == before[a - 1] && out@[b] == before[b - 1]);
                    assert((id_leq())(before[a - 1], before[b - 1]));
                }
            }
        }
        i += 1;
    }
    proof {
        assert(ids@.take(ids.len() as int) =~= ids@);
        lemma_id_leq_total();
        ids@.lemma_sort_by_ensures(id_leq());
        vstd::seq_lib::lemma_sorted_unique(out@, ids@.sort_by(id_leq()), id_leq());
    }
    out
}

/// The author key of a book with these author ids.
pub fn author_key(ids: &Vec<i64>) -> (r: String)
    ensures
        r@ == author_key_spec(ids@),
{
    let sorted = sort_ids(ids);
    let ghost dec = sorted@.map_values(|x: i64| signed_decimal(x as int));
    let mut pieces: Vec<Vec<char>> = Vec::new();
    let mut i: usize = 0;
    while i < sorted.len()
        invariant
            i <= sorted.len(),
            dec == sorted@.map_values(|x: i64| signed_decimal(x as int)),
            views_of(pieces@) == dec.take(i as int),
        decreases sorted.len() - i,
    {
        let mut d: Vec<char> = Vec::new();
        push_signed_decimal(&mut d, sorted[i]);
        let ghost pb = pieces@;
        pieces.push(d);
        proof {
            assert(d@ =~= dec[i as int]);
            assert(views_of(pieces@) =~= views_of(pb).push(d@));
            assert(dec.take(i + 1) =~= dec.take(i as int).push(dec[i as int]));
        }
        i += 1;
    }
    let sep = vec![','];
    let key = join_chars(&pieces, sep.as_slice());
    proof {
        assert(dec.take(sorted.len() as int) =~= dec);
        assert(sep@ =~= seq![',']);
    }
    from_chars(key.as_slice())
}

} // verus!
