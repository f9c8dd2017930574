//! Command-line flags.

use vstd::prelude::*;
use crate::text;
use crate::text::{cat2, same};

verus! {

/// The values that follow a flag among the first `n` arguments.
pub open spec fn values_of(args: Seq<Seq<char>>, flag: Seq<char>, n: int) -> Seq<Seq<char>>
    decreases n,
{
    if n <= 0 {
        Seq::empty()
    } else if args[n - 1] == flag && n < args.len() {
        values_of(args, flag, n - 1).push(args[n])
    } else {
        values_of(args, flag, n - 1)
    }
}

/// All values of the flag `--name`.
pub open spec fn flag_values(args: Seq<Seq<char>>, name: Seq<char>) -> Seq<Seq<char>> {
    values_of(args, "--"@ + name, args.len() as int)
}

/// The first value of the flag `--name`, empty when there is none.
pub open spec fn first_value(args: Seq<Seq<char>>, name: Seq<char>) -> Seq<char> {
    if flag_values(args, name).len() > 0 {
        flag_values(args, name)[0]
    } else {
        Seq::empty()
    }
}

/// All values of the flag `--name`.
pub fn collect_flag(args: &[String], name: &str) -> (r: Vec<String>)
    ensures
        text::texts(r@) == flag_values(text::texts(args@), name@),
{
    let flag = cat2("--", name);
    let ghost all = text::texts(args@);
    let mut r: Vec<String> = Vec::new();
    assert(text::texts(r@) =~= Seq::empty());
    let mut i: usize = 0;
    while i < args.len()
        invariant
            i <= args@.len(),
            all == text::texts(args@),
            flag@ == "--"@ + name@,
            text::texts(r@) == values_of(all, flag@, i as int),
        decreases args.len() - i,
    {
        assert(all[i as int] == args@[i as int]@);
        let ghost before = text::texts(r@);
        if same(args[i].as_str(), flag.as_str()) {
            if i + 1 < args.len() {
                let v = args[i + 1].clone();
                r.push(v);
                assert(text::texts(r@) =~= before.push(all[i + 1]));
            }
        }
        i += 1;
    }
    r
}

/// The first value of the flag `--name`.
pub fn flag_value(args: &[String], name: &str) -> (r: Option<String>)
    ensures
        r is Some == (flag_values(text::texts(args@), name@).len() > 0),
        r matches Some(v) ==> v@ == flag_values(text::texts(args@), name@)[0],
{
    let all = collect_flag(args, name);
    assert(text::texts(all@).len() == all@.len());
    if all.len() > 0 {
        assert(text::texts(all@)[0] == all@[0]@);
        Some(all[0].clone())
    } else {
        None
    }
}

/// The first value of the flag `--name`, empty when there is none.
pub fn first(args: &[String], name: &str) -> (r: String)
    ensures
        r@ == first_value(text::texts(args@), name@),
{
    match flag_value(args, name) {
        Some(v) => v,
        None => String::new(),
    }
}

// ---------------------------------------------------------------------------
// Laws
// ---------------------------------------------------------------------------

proof fn lemma_no_values(args: Seq<Seq<char>>, flag: Seq<char>, n: int)
    requires
        0 <= n <= args.len(),
        forall|i: int| 0 <= i < n ==> #[trigger] args[i] != flag,
    ensures
        values_of(args, flag, n).len() == 0,
    decreases n,
{
    if n > 0 {
        lemma_no_values(args, flag, n - 1);
        assert(args[n - 1] != flag);
    }
}

proof fn lemma_same_values(a: Seq<Seq<char>>, b: Seq<Seq<char>>, flag: Seq<char>, n: int)
    requires
        0 <= n < a.len(),
        n < b.len(),
        forall|i: int| 0 <= i <= n ==> #[trigger] a[i] == b[i],
    ensures
        values_of(a, flag, n) == values_of(b, flag, n),
    decreases n,
{
    if n > 0 {
        lemma_same_values(a, b, flag, n - 1);
        assert(a[n - 1] == b[n - 1] && a[n] == b[n]);
    }
}

/// What follows a flag is its value, and the last one given comes last.
pub proof fn law_a_flag_has_the_value_that_follows_it(
    before: Seq<Seq<char>>,
    name: Seq<char>,
    value: Seq<char>,
)
    requires
        forall|i: int| 0 <= i < before.len() ==> #[trigger] before[i] != "--"@ + name,
        value != "--"@ + name,
    ensures
        flag_values(before + seq!["--"@ + name, value], name) == seq![value],
        first_value(before + seq!["--"@ + name, value], name) == value,
        flag_values(before, name).len() == 0,
        first_value(before, name).len() == 0,
{
    let flag = "--"@ + name;
    let args = before + seq![flag, value];
    let n = before.len() as int;
    assert forall|i: int| 0 <= i < n implies #[trigger] args[i] != flag by {
        assert(args[i] == before[i]);
    }
    lemma_no_values(args, flag, n);
    assert(args[n] == flag && args[n + 1] == value);
    assert(values_of(args, flag, n + 1) =~= seq![value]);
    assert(values_of(args, flag, n + 2) == values_of(args, flag, n + 1));
    lemma_no_values(before, flag, n);
}

/// A flag at the end, with nothing after it, has no value.
pub proof fn law_a_flag_at_the_end_has_no_value(before: Seq<Seq<char>>, name: Seq<char>)
    requires
        forall|i: int| 0 <= i < before.len() ==> #[trigger] before[i] != "--"@ + name,
    ensures
        flag_values(before.push("--"@ + name), name).len() == 0,
{
    let flag = "--"@ + name;
    let args = before.push(flag);
    assert forall|i: int| 0 <= i < before.len() implies #[trigger] args[i] != flag by {
        assert(args[i] == before[i]);
    }
    lemma_no_values(args, flag, before.len() as int);
}

/// A flag that is given once more, after all else, adds its value at the end.
pub proof fn law_values_come_in_order(args: Seq<Seq<char>>, name: Seq<char>, value: Seq<char>)
    requires
        args.len() > 0,
        args.last() != "--"@ + name,
        value != "--"@ + name,
    ensures
        flag_values(args + seq!["--"@ + name, value], name) == flag_values(args, name).push(value),
{
    let flag = "--"@ + name;
    let more = args + seq![flag, value];
    let n = args.len() as int;
    lemma_same_values(args, more, flag, n - 1);
    assert(more[n - 1] == args[n - 1]);
    assert(values_of(args, flag, n) == values_of(args, flag, n - 1));
    assert(values_of(more, flag, n) == values_of(more, flag, n - 1));
    assert(more[n] == flag && more[n + 1] == value);
    assert(values_of(more, flag, n + 1) == values_of(more, flag, n).push(value));
    assert(values_of(more, flag, n + 2) == values_of(more, flag, n + 1));
}

} // verus!
