//! Collection of test functions across a whole program.

use vstd::prelude::*;

use crate::item::Item;
use crate::program::Module;
use crate::program::Program;
use crate::strutil::has_prefix;
use crate::strutil::spec_is_prefix;

verus! {

/// The names of the test functions among a module's items, in order.
pub open spec fn spec_module_tests(items: Seq<Item>) -> Seq<Seq<char>>
    decreases items.len(),
{
    if items.len() == 0 {
        Seq::empty()
    } else {
        let rest = spec_module_tests(items.drop_first());
        match items[0] {
            Item::Function { name, .. } => if spec_is_prefix("test"@, name@) {
                seq![name@] + rest
            } else {
                rest
            },
            _ => rest,
        }
    }
}

/// The names of all test functions of the program, in program order.
pub open spec fn spec_all_tests(ms: Seq<Module>) -> Seq<Seq<char>>
    decreases ms.len(),
{
    if ms.len() == 0 {
        Seq::empty()
    } else {
        spec_module_tests(ms[0].items@) + spec_all_tests(ms.drop_first())
    }
}

/// Scanning one more item appends its contribution.
proof fn lemma_module_tests_push(items: Seq<Item>, it: Item)
    ensures
        spec_module_tests(items.push(it)) == spec_module_tests(items) + (match it {
            Item::Function { name, .. } => if spec_is_prefix("test"@, name@) {
                seq![name@]
            } else {
                Seq::empty()
            },
            _ => Seq::empty(),
        }),
    decreases items.len(),
{
    let whole = items.push(it);
    let tail: Seq<Seq<char>> = match it {
        Item::Function { name, .. } => if spec_is_prefix("test"@, name@) {
            seq![name@]
        } else {
            Seq::empty()
        },
        _ => Seq::empty(),
    };
    if items.len() == 0 {
        assert(whole.drop_first() =~= Seq::<Item>::empty());
        assert(whole[0] == it);
        assert(spec_module_tests(whole.drop_first()) == Seq::<Seq<char>>::empty());
        assert(spec_module_tests(whole) =~= tail);
        assert(spec_module_tests(items) + tail =~= tail);
    } else {
        assert(whole.drop_first() =~= items.drop_first().push(it));
        lemma_module_tests_push(items.drop_first(), it);
        assert(whole[0] == items[0]);
        let head: Seq<Seq<char>> = match items[0] {
            Item::Function { name, .. } => if spec_is_prefix("test"@, name@) {
                seq![name@]
            } else {
                Seq::empty()
            },
            _ => Seq::empty(),
        };
        assert(spec_module_tests(whole) =~= head + (spec_module_tests(items.drop_first())
            + tail));
        assert(spec_module_tests(items) + tail =~= head + (spec_module_tests(items.drop_first())
            + tail));
    }
}

/// Scanning one more module appends its tests.
proof fn lemma_all_tests_push(ms: Seq<Module>, m: Module)
    ensures
        spec_all_tests(ms.push(m)) == spec_all_tests(ms) + spec_module_tests(m.items@),
    decreases ms.len(),
{
    let whole = ms.push(m);
    if ms.len() == 0 {
        assert(whole.drop_first() =~= Seq::<Module>::empty());
        assert(whole[0] == m);
        assert(spec_all_tests(whole.drop_first()) == Seq::<Seq<char>>::empty());
        assert(spec_all_tests(whole) =~= spec_module_tests(m.items@));
        assert(spec_all_tests(ms) + spec_module_tests(m.items@) =~= spec_module_tests(m.items@));
    } else {
        assert(whole.drop_first() =~= ms.drop_first().push(m));
        lemma_all_tests_push(ms.drop_first(), m);
        assert(whole[0] == ms[0]);
        assert(spec_all_tests(whole) =~= spec_module_tests(ms[0].items@) + (spec_all_tests(
            ms.drop_first(),
        ) + spec_module_tests(m.items@)));
        assert(spec_all_tests(ms) + spec_module_tests(m.items@) =~= spec_module_tests(
            ms[0].items@,
        ) + (spec_all_tests(ms.drop_first()) + spec_module_tests(m.items@)));
    }
}

/// Discovers every function whose name carries the test prefix.
pub struct TestCollector {}

impl TestCollector {
    pub fn new() -> (c: TestCollector) {
        TestCollector {  }
    }

    /// The names of all test functions of the program, in program order.
    #[verifier::loop_isolation(false)]
    pub fn all_tests(program: &Program) -> (r: Vec<String>)
        ensures
            r@.map_values(|s: String| s@) == spec_all_tests(program@),
    {
        let mut out: Vec<String> = Vec::new();
        let n = program.len();
        let mut i: usize = 0;
        proof {
            assert(program@.subrange(0, 0) =~= Seq::<Module>::empty());
            assert(out@.map_values(|s: String| s@) =~= spec_all_tests(program@.subrange(0, 0)));
        }
        while i < n
            invariant
                n == program@.len(),
                i <= n,
                out@.map_values(|s: String| s@) == spec_all_tests(program@.subrange(0, i as int)),
            decreases n - i,
        {
            let items = &program[i].items;
            let m = items.len();
            let mut j: usize = 0;
            proof {
                assert(items@.subrange(0, 0) =~= Seq::<Item>::empty());
                assert(spec_module_tests(items@.subrange(0, 0)) == Seq::<Seq<char>>::empty());
                assert(out@.map_values(|s: String| s@) + spec_module_tests(
                    items@.subrange(0, 0),
                ) =~= out@.map_values(|s: String| s@));
            }
            while j < m
                invariant
                    n == program@.len(),
                    i < n,
                    m == items@.len(),
                    items == &program@[i as int].items,
                    j <= m,
                    out@.map_values(|s: String| s@) == spec_all_tests(
                        program@.subrange(0, i as int),
                    ) + spec_module_tests(items@.subrange(0, j as int)),
                decreases m - j,
            {
                let ghost pre = out@;
                match &items[j] {
                    Item::Function { name, .. } => {
                        if has_prefix(name.as_str(), "test") {
                            out.push(name.clone());
                        }
                    },
                    _ => {},
                }
                proof {
                    lemma_module_tests_push(
                        items@.subrange(0, j as int),
                        items@[j as int],
                    );
                    assert(items@.subrange(0, j + 1) =~= items@.subrange(0, j as int).push(
                        items@[j as int],
                    ));
                    if out@.len() > pre.len() {
                        assert(out@.map_values(|s: String| s@) =~= pre.map_values(
                            |s: String| s@,
                        ).push(out@.last()@));
                    } else {
                        assert(out@.map_values(|s: String| s@) =~= pre.map_values(
                            |s: String| s@,
                        ));
                    }
                    assert(out@.map_values(|s: String| s@) =~= spec_all_tests(
                        program@.subrange(0, i as int),
                    ) + spec_module_tests(items@.subrange(0, j + 1)));
                }
                j = j + 1;
            }
            proof {
                assert(items@.subrange(0, m as int) =~= items@);
                assert(program@.subrange(0, i + 1) =~= program@.subrange(0, i as int).push(
                    program@[i as int],
                ));
                lemma_all_tests_push(program@.subrange(0, i as int), program@[i as int]);
            }
            i = i + 1;
        }
        proof {
            assert(program@.subrange(0, n as int) =~= program@);
        }
        out
    }
}

} // verus!
