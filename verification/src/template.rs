use vstd::prelude::*;

verus! {

/// The result of one left-to-right pass over `t` that replaces every
/// non-overlapping occurrence of `pat` by `val`. An empty pattern is left
/// alone.
pub open spec fn replace_all(t: Seq<u8>, pat: Seq<u8>, val: Seq<u8>) -> Seq<u8>
    decreases t.len(),
{
    if pat.len() == 0 || t.len() < pat.len() {
        t
    } else if t.subrange(0, pat.len() as int) == pat {
        val + replace_all(t.skip(pat.len() as int), pat, val)
    } else {
        seq![t[0]] + replace_all(t.skip(1), pat, val)
    }
}

/// The placeholder token for `name`: the name framed by two percent signs on
/// each side.
pub open spec fn token_spec(name: Seq<u8>) -> Seq<u8> {
    seq![37u8, 37u8] + name + seq![37u8, 37u8]
}

/// `t` with each named placeholder token replaced by its value, applied in
/// the order the entries are given.
pub open spec fn fill_spec(t: Seq<u8>, entries: Seq<(Seq<u8>, Seq<u8>)>) -> Seq<u8>
    decreases entries.len(),
{
    if entries.len() == 0 {
        t
    } else {
        fill_spec(replace_all(t, token_spec(entries[0].0), entries[0].1), entries.skip(1))
    }
}

/// The placeholder name `title`, as bytes.
pub open spec fn title_key_spec() -> Seq<u8> {
    seq![116u8, 105u8, 116u8, 108u8, 101u8]
}

/// The placeholder name `content`, as bytes.
pub open spec fn content_key_spec() -> Seq<u8> {
    seq![99u8, 111u8, 110u8, 116u8, 101u8, 110u8, 116u8]
}

/// The placeholder name `page`, as bytes.
pub open spec fn page_key_spec() -> Seq<u8> {
    seq![112u8, 97u8, 103u8, 101u8]
}

/// The placeholder name `legend`, as bytes.
pub open spec fn legend_key_spec() -> Seq<u8> {
    seq![108u8, 101u8, 103u8, 101u8, 110u8, 100u8]
}

/// The placeholder name `title`, as bytes.
pub fn title_key() -> (r: Vec<u8>)
    ensures
        r@ == title_key_spec(),
{
    let mut v: Vec<u8> = Vec::new();
    v.push(116);
    v.push(105);
    v.push(116);
    v.push(108);
    v.push(101);
    proof {
        assert(v@ =~= title_key_spec());
    }
    v
}

/// The placeholder name `content`, as bytes.
pub fn content_key() -> (r: Vec<u8>)
    ensures
        r@ == content_key_spec(),
{
    let mut v: Vec<u8> = Vec::new();
    v.push(99);
    v.push(111);
    v.push(110);
    v.push(116);
    v.push(101);
    v.push(110);
    v.push(116);
    proof {
        assert(v@ =~= content_key_spec());
    }
    v
}

/// The placeholder name `page`, as bytes.
pub fn page_key() -> (r: Vec<u8>)
    ensures
        r@ == page_key_spec(),
{
    let mut v: Vec<u8> = Vec::new();
    v.push(112);
    v.push(97);
    v.push(103);
    v.push(101);
    proof {
        assert(v@ =~= page_key_spec());
    }
    v
}

/// The placeholder name `legend`, as bytes.
pub fn legend_key() -> (r: Vec<u8>)
    ensures
        r@ == legend_key_spec(),
{
    let mut v: Vec<u8> = Vec::new();
    v.push(108);
    v.push(101);
    v.push(103);
    v.push(101);
    v.push(110);
    v.push(100);
    proof {
        assert(v@ =~= legend_key_spec());
    }
    v
}

/// Whether `pat` occurs in `t` at position `i`.
fn match_at(t: &Vec<u8>, i: usize, pat: &Vec<u8>) -> (r: bool)
    requires
        i + pat@.len() <= t@.len(),
    ensures
        r <==> t@.subrange(i as int, i as int + pat@.len() as int) == pat@,
{
    let tlen = t.len();
    let mut j: usize = 0;
    while j < pat.len()
        invariant
            j <= pat@.len(),
            tlen == t@.len(),
            i + pat@.len() <= t@.len(),
            forall|k: int| 0 <= k < j ==> t@[i + k] == pat@[k],
        decreases pat@.len() - j,
    {
        if t[i + j] != pat[j] {
            proof {
                let sub = t@.subrange(i as int, i as int + pat@.len() as int);
                assert(sub[j as int] == t@[i + j]);
            }
            return false;
        }
        j += 1;
    }
    proof {
        assert(t@.subrange(i as int, i as int + pat@.len() as int) =~= pat@);
    }
    true
}

/// Append every byte of `val` to `r`.
fn append_bytes(r: &mut Vec<u8>, val: &Vec<u8>)
    ensures
        final(r)@ == old(r)@ + val@,
{
    let ghost pre = r@;
    let mut j: usize = 0;
    while j < val.len()
        invariant
            j <= val@.len(),
            r@ == pre + val@.subrange(0, j as int),
        decreases val@.len() - j,
    {
        r.push(val[j]);
        proof {
            assert(pre + val@.subrange(0, j as int + 1) =~= (pre + val@.subrange(
                0,
                j as int,
            )).push(val@[j as int]));
        }
        j += 1;
    }
    proof {
        assert(val@.subrange(0, val@.len() as int) =~= val@);
    }
}

/// Replace every non-overlapping occurrence of `pat` in `t` by `val`, in one
/// left-to-right pass.
pub fn replace_token(t: &Vec<u8>, pat: &Vec<u8>, val: &Vec<u8>) -> (r: Vec<u8>)
    requires
        pat@.len() > 0,
    ensures
        r@ == replace_all(t@, pat@, val@),
{
    let mut r: Vec<u8> = Vec::new();
    let mut i: usize = 0;
    proof {
        assert(t@.skip(0) =~= t@);
    }
    while i < t.len()
        invariant
            i <= t@.len(),
            pat@.len() > 0,
            r@ + replace_all(t@.skip(i as int), pat@, val@) == replace_all(t@, pat@, val@),
        decreases t@.len() - i,
    {
        let ghost pre = r@;
        let ghost rest = t@.skip(i as int);
        if pat.len() <= t.len() - i && match_at(t, i, pat) {
            append_bytes(&mut r, val);
            proof {
                assert(rest.subrange(0, pat@.len() as int) =~= t@.subrange(
                    i as int,
                    i as int + pat@.len() as int,
                ));
                assert(replace_all(rest, pat@, val@) == val@ + replace_all(
                    rest.skip(pat@.len() as int),
                    pat@,
                    val@,
                ));
                assert(rest.skip(pat@.len() as int) =~= t@.skip(i as int + pat@.len() as int));
                assert((pre + val@) + replace_all(t@.skip(i as int + pat@.len() as int), pat@, val@)
                    =~= pre + (val@ + replace_all(
                    t@.skip(i as int + pat@.len() as int),
                    pat@,
                    val@,
                )));
            }
            i += pat.len();
        } else {
            let b = t[i];
            r.push(b);
            proof {
                if rest.len() >= pat@.len() {
                    assert(rest.subrange(0, pat@.len() as int) =~= t@.subrange(
                        i as int,
                        i as int + pat@.len() as int,
                    ));
                }
                assert(rest[0] == t@[i as int]);
                assert(replace_all(rest, pat@, val@) == seq![rest[0]] + replace_all(
                    rest.skip(1),
                    pat@,
                    val@,
                ));
                assert(rest.skip(1) =~= t@.skip(i as int + 1));
                assert(pre.push(b) + replace_all(t@.skip(i as int + 1), pat@, val@) =~= pre + (
                seq![rest[0]] + replace_all(t@.skip(i as int + 1), pat@, val@)));
            }
            i += 1;
        }
    }
    proof {
        assert(t@.skip(i as int) =~= Seq::<u8>::empty());
        assert(r@ + replace_all(t@.skip(i as int), pat@, val@) =~= r@);
    }
    r
}

/// Build the placeholder token for `name`: `name` framed by two percent
/// signs on each side.
pub fn make_token(name: &Vec<u8>) -> (r: Vec<u8>)
    ensures
        r@ == token_spec(name@),
{
    let mut r: Vec<u8> = Vec::new();
    r.push(37);
    r.push(37);
    append_bytes(&mut r, name);
    r.push(37);
    r.push(37);
    proof {
        assert(r@ =~= token_spec(name@));
    }
    r
}

/// Substitute every entry's value for its placeholder token in `template`,
/// in the order the entries are given. Values are inserted as they are: a
/// caller that must keep arbitrary content from breaking the surrounding
/// markup passes it opaquely encoded.
pub fn fill_layout(template: &Vec<u8>, entries: &Vec<(Vec<u8>, Vec<u8>)>) -> (r: Vec<u8>)
    ensures
        r@ == fill_spec(
            template@,
            entries@.map_values(|e: (Vec<u8>, Vec<u8>)| (e.0@, e.1@)),
        ),
{
    let ghost all = entries@.map_values(|e: (Vec<u8>, Vec<u8>)| (e.0@, e.1@));
    let mut cur: Vec<u8> = Vec::new();
    append_bytes(&mut cur, template);
    proof {
        assert(cur@ =~= template@);
        assert(all.skip(0) =~= all);
    }
    let mut k: usize = 0;
    while k < entries.len()
        invariant
            k <= entries@.len(),
            all == entries@.map_values(|e: (Vec<u8>, Vec<u8>)| (e.0@, e.1@)),
            fill_spec(cur@, all.skip(k as int)) == fill_spec(template@, all),
        decreases entries@.len() - k,
    {
        let tok = make_token(&entries[k].0);
        let next = replace_token(&cur, &tok, &entries[k].1);
        proof {
            let rem = all.skip(k as int);
            assert(rem[0] == (entries@[k as int].0@, entries@[k as int].1@));
            assert(fill_spec(cur@, rem) == fill_spec(
                replace_all(cur@, token_spec(rem[0].0), rem[0].1),
                rem.skip(1),
            ));
            assert(rem.skip(1) =~= all.skip(k as int + 1));
            assert(next@ == replace_all(cur@, token_spec(rem[0].0), rem[0].1));
        }
        cur = next;
        k += 1;
    }
    proof {
        assert(all.skip(k as int) =~= Seq::<(Seq<u8>, Seq<u8>)>::empty());
    }
    cur
}

} // verus!
