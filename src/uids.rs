//! UID lists and UID sets: the ascending, duplicate-free lists handed to callers and
//! the comma-joined sets written into commands.
use vstd::prelude::*;

verus! {

pub open spec fn strictly_ascending(s: Seq<u32>) -> bool {
    forall|i: int, j: int| 0 <= i < j < s.len() ==> s[i] < s[j]
}

/// Places `u` in the strictly ascending `v`, unless it is there already.
fn insert_sorted(v: &mut Vec<u32>, u: u32)
    requires
        strictly_ascending(old(v)@),
    ensures
        strictly_ascending(final(v)@),
        forall|x: u32| final(v)@.contains(x) <==> (old(v)@.contains(x) || x == u),
{
    let n = v.len();
    let mut k: usize = 0;
    while k < n && v[k] < u
        invariant
            k <= n == v@.len(),
            forall|j: int| 0 <= j < k ==> v@[j] < u,
        decreases n - k,
    {
        k = k + 1;
    }
    if k < n && v[k] == u {
        assert(v@.contains(u) && v@[k as int] == u);
        return;
    }
    let ghost before = v@;
    assert(before == old(v)@);
    v.insert(k, u);
    assert forall|x: u32| v@.contains(x) <==> (before.contains(x) || x == u) by {
        if v@.contains(x) {
            let j = choose|j: int| 0 <= j < v@.len() && v@[j] == x;
            if j < k {
                assert(before[j] == x);
            } else if j > k {
                assert(before[j - 1] == x);
            }
        }
        if before.contains(x) {
            let j = choose|j: int| 0 <= j < before.len() && before[j] == x;
            if j < k {
                assert(v@[j] == x);
            } else {
                assert(v@[j + 1] == x);
            }
        }
        if x == u {
            assert(v@[k as int] == u);
        }
    }
    assert(forall|x: u32| v@.contains(x) <==> (old(v)@.contains(x) || x == u));
}

/// The UIDs of `found` above `last_uid`, ascending and each once. Servers answer
/// `UID SEARCH <n+1>:*` with the highest UID even when it is `n` itself, so the
/// bound is applied here again.
pub fn new_uids_after(found: &Vec<u32>, last_uid: u32) -> (r: Vec<u32>)
    ensures
        strictly_ascending(r@),
        forall|u: u32| r@.contains(u) <==> (found@.contains(u) && u > last_uid),
{
    let mut r: Vec<u32> = Vec::new();
    let mut i: usize = 0;
    while i < found.len()
        invariant
            i <= found@.len(),
            strictly_ascending(r@),
            forall|u: u32| r@.contains(u) <==> (found@.subrange(0, i as int).contains(u) && u > last_uid),
        decreases found@.len() - i,
    {
        let u = found[i];
        let ghost before = r@;
        if u > last_uid {
            insert_sorted(&mut r, u);
        }
        proof {
            let pre = found@.subrange(0, i as int);
            let post = found@.subrange(0, i + 1);
            assert(post =~= pre.push(u));
            assert forall|x: u32| post.contains(x) <==> (pre.contains(x) || x == u) by {
                if post.contains(x) {
                    let j = choose|j: int| 0 <= j < post.len() && post[j] == x;
                    if j < i {
                        assert(pre[j] == x);
                    }
                }
                if pre.contains(x) {
                    let j = choose|j: int| 0 <= j < pre.len() && pre[j] == x;
                    assert(post[j] == x);
                }
                if x == u {
                    assert(post[i as int] == u);
                }
            }
        }
        i = i + 1;
    }
    assert(found@.subrange(0, found@.len() as int) =~= found@);
    r
}

/// All UIDs of `found`, ascending and each once.
pub fn ascending_uids(found: &Vec<u32>) -> (r: Vec<u32>)
    ensures
        strictly_ascending(r@),
        forall|u: u32| r@.contains(u) <==> found@.contains(u),
{
    let mut r: Vec<u32> = Vec::new();
    let mut i: usize = 0;
    while i < found.len()
        invariant
            i <= found@.len(),
            strictly_ascending(r@),
            forall|u: u32| r@.contains(u) <==> found@.subrange(0, i as int).contains(u),
        decreases found@.len() - i,
    {
        let u = found[i];
        insert_sorted(&mut r, u);
        proof {
            let pre = found@.subrange(0, i as int);
            let post = found@.subrange(0, i + 1);
            assert(post =~= pre.push(u));
            assert forall|x: u32| post.contains(x) <==> (pre.contains(x) || x == u) by {
                if post.contains(x) {
                    let j = choose|j: int| 0 <= j < post.len() && post[j] == x;
                    if j < i {
                        assert(pre[j] == x);
                    }
                }
                if pre.contains(x) {
                    let j = choose|j: int| 0 <= j < pre.len() && pre[j] == x;
                    assert(post[j] == x);
                }
                if x == u {
                    assert(post[i as int] == u);
                }
            }
        }
        i = i + 1;
    }
    assert(found@.subrange(0, found@.len() as int) =~= found@);
    r
}

pub open spec fn digit_chars() -> Seq<char> {
    seq!['0', '1', '2', '3', '4', '5', '6', '7', '8', '9']
}

/// The decimal writing of `n`, without leading zeros.
pub open spec fn decimal_text(n: nat) -> Seq<char>
    decreases n,
{
    if n < 10 {
        seq![digit_chars()[n as int]]
    } else {
        decimal_text(n / 10).push(digit_chars()[(n % 10) as int])
    }
}

/// UIDs written in decimal and joined by commas: a UID set for a command.
pub open spec fn uid_set_text(s: Seq<u32>) -> Seq<char>
    decreases s.len(),
{
    if s.len() == 0 {
        Seq::empty()
    } else if s.len() == 1 {
        decimal_text(s[0] as nat)
    } else {
        uid_set_text(s.drop_last()) + seq![','] + decimal_text(s.last() as nat)
    }
}

fn push_digit(s: &mut String, d: u32)
    requires
        d < 10,
    ensures
        final(s)@ == old(s)@.push(digit_chars()[d as int]),
{
    let lit = if d == 0 {
        "0"
    } else if d == 1 {
        "1"
    } else if d == 2 {
        "2"
    } else if d == 3 {
        "3"
    } else if d == 4 {
        "4"
    } else if d == 5 {
        "5"
    } else if d == 6 {
        "6"
    } else if d == 7 {
        "7"
    } else if d == 8 {
        "8"
    } else {
        "9"
    };
    proof {
        reveal_strlit("0");
        reveal_strlit("1");
        reveal_strlit("2");
        reveal_strlit("3");
        reveal_strlit("4");
        reveal_strlit("5");
        reveal_strlit("6");
        reveal_strlit("7");
        reveal_strlit("8");
        reveal_strlit("9");
    }
    s.append(lit);
    assert(final(s)@ =~= old(s)@.push(digit_chars()[d as int]));
}

/// Appends the decimal writing of `n` to `s`.
pub fn push_decimal(s: &mut String, n: u64)
    ensures
        final(s)@ == old(s)@ + decimal_text(n as nat),
    decreases n,
{
    if n >= 10 {
        push_decimal(s, n / 10);
    }
    push_digit(s, (n % 10) as u32);
    proof {
        if n >= 10 {
            assert(decimal_text(n as nat) == decimal_text((n / 10) as nat).push(
                digit_chars()[(n % 10) as int],
            ));
        }
    }
    assert(final(s)@ =~= old(s)@ + decimal_text(n as nat));
}

/// The UID set `1,5,10` of a list of UIDs.
pub fn uid_set_string(uids: &Vec<u32>) -> (r: String)
    ensures
        r@ == uid_set_text(uids@),
{
    let mut s = String::new();
    let mut i: usize = 0;
    while i < uids.len()
        invariant
            i <= uids@.len(),
            s@ == uid_set_text(uids@.subrange(0, i as int)),
        decreases uids@.len() - i,
    {
        let ghost pre = uids@.subrange(0, i as int);
        assert(uids@.subrange(0, i + 1).drop_last() =~= pre);
        if i > 0 {
            s.append(",");
            proof {
                reveal_strlit(",");
            }
        }
        push_decimal(&mut s, uids[i] as u64);
        assert(s@ =~= uid_set_text(uids@.subrange(0, i + 1)));
        i = i + 1;
    }
    assert(uids@.subrange(0, uids@.len() as int) =~= uids@);
    s
}

/// The UID set for a STORE, MOVE or EXPUNGE on `uids`; `None` when the list is empty:
/// there is then nothing to do and no command is to be sent.
pub fn uid_set_for_update(uids: &Vec<u32>) -> (r: Option<String>)
    ensures
        uids@.len() == 0 <==> r is None,
        r is Some ==> r.unwrap()@ == uid_set_text(uids@),
{
    if uids.len() == 0 {
        None
    } else {
        Some(uid_set_string(uids))
    }
}

/// The UID set for a FETCH on `uids`; an empty list is an input error, reported
/// before any connection is made.
pub fn uid_set_for_fetch(uids: &Vec<u32>) -> (r: Result<String, String>)
    ensures
        uids@.len() == 0 <==> r is Err,
        r is Ok ==> r.unwrap()@ == uid_set_text(uids@),
        r is Err ==> r->Err_0@ == "No UIDs provided"@,
{
    if uids.len() == 0 {
        Err("No UIDs provided".to_owned())
    } else {
        Ok(uid_set_string(uids))
    }
}

} // verus!
