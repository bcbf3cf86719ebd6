//! Texts put together from a fixed number of parts.
use vstd::prelude::*;
use vstd::string::StringExecFns;

verus! {

/// The 2 texts one after the other.
pub fn cat2(a: &str, b: &str) -> (r: String)
    ensures
        r@ == a@ + b@,
{
    let mut out = a.to_owned();
    out.append(b);
    out
}

/// The 3 texts one after the other.
pub fn cat3(a: &str, b: &str, c: &str) -> (r: String)
    ensures
        r@ == a@ + b@ + c@,
{
    let mut out = a.to_owned();
    out.append(b);
    out.append(c);
    out
}

/// The 4 texts one after the other.
pub fn cat4(a: &str, b: &str, c: &str, d: &str) -> (r: String)
    ensures
        r@ == a@ + b@ + c@ + d@,
{
    let mut out = a.to_owned();
    out.append(b);
    out.append(c);
    out.append(d);
    out
}

/// The 5 texts one after the other.
pub fn cat5(a: &str, b: &str, c: &str, d: &str, e: &str) -> (r: String)
    ensures
        r@ == a@ + b@ + c@ + d@ + e@,
{
    let mut out = a.to_owned();
    out.append(b);
    out.append(c);
    out.append(d);
    out.append(e);
    out
}

/// The 6 texts one after the other.
pub fn cat6(a: &str, b: &str, c: &str, d: &str, e: &str, f: &str) -> (r: String)
    ensures
        r@ == a@ + b@ + c@ + d@ + e@ + f@,
{
    let mut out = a.to_owned();
    out.append(b);
    out.append(c);
    out.append(d);
    out.append(e);
    out.append(f);
    out
}

/// The 7 texts one after the other.
pub fn cat7(a: &str, b: &str, c: &str, d: &str, e: &str, f: &str, g: &str) -> (r: String)
    ensures
        r@ == a@ + b@ + c@ + d@ + e@ + f@ + g@,
{
    let mut out = a.to_owned();
    out.append(b);
    out.append(c);
    out.append(d);
    out.append(e);
    out.append(f);
    out.append(g);
    out
}

/// The 8 texts one after the other.
pub fn cat8(a: &str, b: &str, c: &str, d: &str, e: &str, f: &str, g: &str, h: &str) -> (r: String)
    ensures
        r@ == a@ + b@ + c@ + d@ + e@ + f@ + g@ + h@,
{
    let mut out = a.to_owned();
    out.append(b);
    out.append(c);
    out.append(d);
    out.append(e);
    out.append(f);
    out.append(g);
    out.append(h);
    out
}

/// The 9 texts one after the other.
pub fn cat9(
    a: &str,
    b: &str,
    c: &str,
    d: &str,
    e: &str,
    f: &str,
    g: &str,
    h: &str,
    i: &str,
) -> (r: String)
    ensures
        r@ == a@ + b@ + c@ + d@ + e@ + f@ + g@ + h@ + i@,
{
    let mut out = a.to_owned();
    out.append(b);
    out.append(c);
    out.append(d);
    out.append(e);
    out.append(f);
    out.append(g);
    out.append(h);
    out.append(i);
    out
}

/// The 10 texts one after the other.
pub fn cat10(
    a: &str,
    b: &str,
    c: &str,
    d: &str,
    e: &str,
    f: &str,
    g: &str,
    h: &str,
    i: &str,
    j: &str,
) -> (r: String)
    ensures
        r@ == a@ + b@ + c@ + d@ + e@ + f@ + g@ + h@ + i@ + j@,
{
    let mut out = a.to_owned();
    out.append(b);
    out.append(c);
    out.append(d);
    out.append(e);
    out.append(f);
    out.append(g);
    out.append(h);
    out.append(i);
    out.append(j);
    out
}

/// The 12 texts one after the other.
pub fn cat12(
    a: &str,
    b: &str,
    c: &str,
    d: &str,
    e: &str,
    f: &str,
    g: &str,
    h: &str,
    i: &str,
    j: &str,
    k: &str,
    l: &str,
) -> (r: String)
    ensures
        r@ == a@ + b@ + c@ + d@ + e@ + f@ + g@ + h@ + i@ + j@ + k@ + l@,
{
    let mut out = a.to_owned();
    out.append(b);
    out.append(c);
    out.append(d);
    out.append(e);
    out.append(f);
    out.append(g);
    out.append(h);
    out.append(i);
    out.append(j);
    out.append(k);
    out.append(l);
    out
}

/// A text of `count` times the character `c`.
pub open spec fn repeated(c: char, count: nat) -> Seq<char> {
    Seq::new(count, |i: int| c)
}

/// A text of `count` times the character `c`.
pub fn repeat(c: char, count: usize) -> (r: String)
    ensures
        r@ == repeated(c, count as nat),
{
    let mut out = String::new();
    for i in 0..count
        invariant
            out@ == repeated(c, i as nat),
    {
        out.push(c);
        assert(repeated(c, i as nat).push(c) =~= repeated(c, (i + 1) as nat));
    }
    out
}

} // verus!
