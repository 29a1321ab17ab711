//! Sample thread bodies for timing a chat switch.

use crate::text::{concat3, dec, fmt_usize, owned};
use vstd::prelude::*;

verus! {

/// One copy of the Python snippet the heavy bodies repeat.
pub open spec fn python_block() -> Seq<char> {
    "def classify(rows):\n    total = 0\n    for row in rows:\n        if row.get(\"ok\"):\n            total += int(row[\"n\"])\n        else:\n            total -= 1\n    return {\"total\": total, \"empty\": len(rows) == 0}\n"@
}

/// `s` repeated `n` times.
pub open spec fn repeat(s: Seq<char>, n: nat) -> Seq<char>
    decreases n,
{
    if n == 0 {
        Seq::empty()
    } else {
        repeat(s, (n - 1) as nat) + s
    }
}

/// The fenced Python code block of every assistant body.
pub open spec fn python_fence() -> Seq<char> {
    "```python\n"@ + repeat(python_block(), 30) + "\n```\n"@
}

fn python_sample() -> (r: String)
    ensures
        r@ == repeat(python_block(), 30),
{
    let mut out = String::new();
    let mut i: usize = 0;
    while i < 30
        invariant
            i <= 30,
            out@ == repeat(python_block(), i as nat),
        decreases 30 - i,
    {
        out.append(
            "def classify(rows):\n    total = 0\n    for row in rows:\n        if row.get(\"ok\"):\n            total += int(row[\"n\"])\n        else:\n            total -= 1\n    return {\"total\": total, \"empty\": len(rows) == 0}\n",
        );
        i += 1;
    }
    out
}

/// The user body of pass `i`.
pub open spec fn user_body(i: nat) -> Seq<char> {
    "Walk through the classifier and point out the expensive branch."@ + " ("@ + dec(i) + ")"@
}

/// The assistant body of pass `i`.
pub open spec fn assistant_body(i: nat) -> Seq<char> {
    "Here is pass "@ + dec(i) + ".\n\n"@ + python_fence()
}

/// The first `k` passes: user body, then assistant body, for each pass.
pub open spec fn heavy_bodies_upto(k: nat) -> Seq<Seq<char>>
    decreases k,
{
    if k == 0 {
        Seq::empty()
    } else {
        heavy_bodies_upto((k - 1) as nat).push(user_body((k - 1) as nat)).push(
            assistant_body((k - 1) as nat),
        )
    }
}

/// Assistant bodies with fenced Python, repeated so highlight dominates a frame.
pub fn heavy_switch_bodies() -> (r: Vec<String>)
    ensures
        r@.map_values(|s: String| s@) == heavy_bodies_upto(8),
{
    let sample = python_sample();
    let fence = concat3("```python\n", sample.as_str(), "\n```\n");
    let user = "Walk through the classifier and point out the expensive branch.";
    let mut bodies: Vec<String> = Vec::new();
    let mut index: usize = 0;
    while index < 8
        invariant
            index <= 8,
            fence@ == python_fence(),
            user@ == "Walk through the classifier and point out the expensive branch."@,
            bodies@.map_values(|s: String| s@) == heavy_bodies_upto(index as nat),
        decreases 8 - index,
    {
        let n = fmt_usize(index);
        let mut u = owned(user);
        u.append(" (");
        u.append(n.as_str());
        u.append(")");
        let mut a = owned("Here is pass ");
        a.append(n.as_str());
        a.append(".\n\n");
        a.append(fence.as_str());
        let ghost prev = bodies@;
        bodies.push(u);
        bodies.push(a);
        proof {
            assert(bodies@.map_values(|s: String| s@) =~= prev.map_values(|s: String| s@).push(
                u@,
            ).push(a@));
        }
        index += 1;
    }
    bodies
}

} // verus!
