use vstd::prelude::*;
use crate::text::{chars_of, is_space, is_space_char, occurs_at, occurs_at_exec, views};

verus! {

broadcast use vstd::string::group_string_axioms;

/// One operation of a `.lf` rule chain, as far as the plugin checks read it.
pub enum Op {
    /// A `python:` block and its script body.
    Python(String),
    /// A `split` operation with the sub-chains it runs before and after.
    Split { pre: Vec<Op>, post: Vec<Op> },
    /// Any other operation (`keep`, `drop`, `head`, `shell:`, ...).
    Other,
}

/// A macro definition: a named chain of operations.
pub struct Define {
    pub ops: Vec<Op>,
}

/// A rule: the chain of operations applied when it matches.
pub struct Rule {
    pub ops: Vec<Op>,
}

/// A parsed `.lf` file: its macro definitions and its rules, in file order.
pub struct RuleSet {
    pub defines: Vec<Define>,
    pub rules: Vec<Rule>,
}

/// The line that opens a PEP 723 inline-metadata block.
pub open spec fn script_marker() -> Seq<char> {
    seq!['#', ' ', '/', '/', '/', ' ', 's', 'c', 'r', 'i', 'p', 't']
}

/// Position `j` of `s` lies in the leading whitespace of its line: every
/// character between the start of the line and `j` is whitespace.
pub open spec fn in_leading_space(s: Seq<char>, j: int) -> bool
    decreases j,
{
    if j <= 0 || j > s.len() {
        j == 0
    } else if s[j - 1] == '\n' {
        true
    } else if is_space(s[j - 1]) {
        in_leading_space(s, j - 1)
    } else {
        false
    }
}

/// Some line of `body`, once its leading whitespace is trimmed, starts with
/// `# /// script`: the body declares PEP 723 inline dependencies.
pub open spec fn declares_script_metadata(body: Seq<char>) -> bool {
    exists|j: int| in_leading_space(body, j) && occurs_at(body, script_marker(), j)
}

/// The script bodies with PEP 723 headers in one operation, sub-chains included.
pub open spec fn op_bodies(op: Op) -> Seq<Seq<char>>
    decreases op,
{
    match op {
        Op::Python(body) => if declares_script_metadata(body@) {
            seq![body@]
        } else {
            Seq::empty()
        },
        Op::Split { pre, post } => ops_bodies(pre@) + ops_bodies(post@),
        Op::Other => Seq::empty(),
    }
}

/// The script bodies with PEP 723 headers in a chain, in order.
pub open spec fn ops_bodies(ops: Seq<Op>) -> Seq<Seq<char>>
    decreases ops,
{
    if ops.len() == 0 {
        Seq::empty()
    } else {
        ops_bodies(ops.subrange(0, ops.len() - 1)) + op_bodies(ops[ops.len() - 1])
    }
}

/// The script bodies with PEP 723 headers in a list of definitions, in order.
pub open spec fn defines_bodies(ds: Seq<Define>) -> Seq<Seq<char>>
    decreases ds.len(),
{
    if ds.len() == 0 {
        Seq::empty()
    } else {
        defines_bodies(ds.drop_last()) + ops_bodies(ds.last().ops@)
    }
}

/// The script bodies with PEP 723 headers in a list of rules, in order.
pub open spec fn rules_bodies(rs: Seq<Rule>) -> Seq<Seq<char>>
    decreases rs.len(),
{
    if rs.len() == 0 {
        Seq::empty()
    } else {
        rules_bodies(rs.drop_last()) + ops_bodies(rs.last().ops@)
    }
}

/// Every script body with PEP 723 headers in a rule set: those of the
/// definitions first, then those of the rules.
pub open spec fn ruleset_bodies(rs: RuleSet) -> Seq<Seq<char>> {
    defines_bodies(rs.defines@) + rules_bodies(rs.rules@)
}

/// Whether `body` declares PEP 723 inline dependencies.
pub fn has_script_metadata(body: &str) -> (b: bool)
    ensures
        b == declares_script_metadata(body@),
{
    let c = chars_of(body);
    let marker_text = "# /// script";
    proof {
        reveal_strlit("# /// script");
    }
    let marker = chars_of(marker_text);
    assert(marker@ =~= script_marker());
    let n = c.len();
    let mut leading = true;
    let mut j: usize = 0;
    while j < n
        invariant
            j <= n,
            n == c@.len(),
            c@ == body@,
            marker@ == script_marker(),
            leading == in_leading_space(body@, j as int),
            forall|k: int|
                0 <= k < j ==> !(in_leading_space(body@, k) && occurs_at(body@, script_marker(), k)),
        decreases n - j,
    {
        if leading && occurs_at_exec(&c, &marker, j) {
            return true;
        }
        let ch = c[j];
        leading = ch == '\n' || (leading && is_space_char(ch));
        j = j + 1;
    }
    assert forall|k: int| !(in_leading_space(body@, k) && occurs_at(body@, script_marker(), k)) by {
        if 0 <= k <= n {
        } else {
        }
    }
    false
}

/// Appends to `out` every `python:` body in `ops` that declares PEP 723
/// inline dependencies, descending into the sub-chains of `split`.
pub fn walk_ops(ops: &[Op], out: &mut Vec<String>)
    ensures
        views(final(out)@) == views(old(out)@) + ops_bodies(ops@),
    decreases ops@,
{
    let ghost start = views(out@);
    let n = ops.len();
    for i in 0..n
        invariant
            n == ops@.len(),
            views(out@) == start + ops_bodies(ops@.take(i as int)),
    {
        assert(ops@.take(i + 1).subrange(0, i as int) =~= ops@.take(i as int));
        let ghost prev = views(out@);
        let op = &ops[i];
        match op {
            Op::Python(body) => {
                if has_script_metadata(body.as_str()) {
                    out.push(body.clone());
                    assert(views(out@) =~= prev + seq![body@]);
                } else {
                    assert(views(out@) =~= prev + Seq::empty());
                }
            },
            Op::Split { pre, post } => {
                assert(decreases_to!(ops@ => ops@[i as int]));
                walk_ops(pre.as_slice(), out);
                walk_ops(post.as_slice(), out);
            },
            Op::Other => {
                assert(views(out@) =~= prev + Seq::empty());
            },
        }
        assert(views(out@) =~= prev + op_bodies(ops@[i as int]));
        assert(ops@.take(i + 1)[i as int] == ops@[i as int]);
        assert(views(out@) =~= start + ops_bodies(ops@.take(i + 1)));
    }
    assert(ops@.take(n as int) =~= ops@);
}

/// Every `python:` body of a rule set that declares PEP 723 inline
/// dependencies, macro definitions and `split` sub-chains included: those
/// of the definitions first, then those of the rules, each in file order.
pub fn collect_pep723_bodies(rs: &RuleSet) -> (out: Vec<String>)
    ensures
        views(out@) == ruleset_bodies(*rs),
{
    let mut out: Vec<String> = Vec::new();
    let nd = rs.defines.len();
    for i in 0..nd
        invariant
            nd == rs.defines@.len(),
            views(out@) == defines_bodies(rs.defines@.take(i as int)),
    {
        assert(rs.defines@.take(i + 1).drop_last() =~= rs.defines@.take(i as int));
        walk_ops(rs.defines[i].ops.as_slice(), &mut out);
    }
    assert(rs.defines@.take(nd as int) =~= rs.defines@);
    let ghost after_defines = views(out@);
    let nr = rs.rules.len();
    for i in 0..nr
        invariant
            nr == rs.rules@.len(),
            after_defines == defines_bodies(rs.defines@),
            views(out@) == after_defines + rules_bodies(rs.rules@.take(i as int)),
    {
        assert(rs.rules@.take(i + 1).drop_last() =~= rs.rules@.take(i as int));
        walk_ops(rs.rules[i].ops.as_slice(), &mut out);
        assert(views(out@) =~= after_defines + rules_bodies(rs.rules@.take(i + 1)));
    }
    assert(rs.rules@.take(nr as int) =~= rs.rules@);
    out
}

/// Every body collected from an operation declares PEP 723 inline
/// dependencies, and comes from a `python:` block of it.
pub proof fn lemma_op_bodies_declare_metadata(op: Op)
    ensures
        forall|k: int|
            0 <= k < op_bodies(op).len() ==> declares_script_metadata(#[trigger] op_bodies(op)[k]),
    decreases op,
{
    match op {
        Op::Split { pre, post } => {
            lemma_ops_bodies_declare_metadata(pre@);
            lemma_ops_bodies_declare_metadata(post@);
            assert forall|k: int|
                0 <= k < op_bodies(op).len() implies declares_script_metadata(
                #[trigger] op_bodies(op)[k],
            ) by {
                if k < ops_bodies(pre@).len() {
                    assert(op_bodies(op)[k] == ops_bodies(pre@)[k]);
                } else {
                    assert(op_bodies(op)[k] == ops_bodies(post@)[k - ops_bodies(pre@).len()]);
                }
            }
        },
        _ => {},
    }
}

/// Every body collected from a chain declares PEP 723 inline dependencies.
pub proof fn lemma_ops_bodies_declare_metadata(ops: Seq<Op>)
    ensures
        forall|k: int|
            0 <= k < ops_bodies(ops).len() ==> declares_script_metadata(
                #[trigger] ops_bodies(ops)[k],
            ),
    decreases ops,
{
    if ops.len() > 0 {
        let init = ops.subrange(0, ops.len() - 1);
        let last = ops[ops.len() - 1];
        lemma_ops_bodies_declare_metadata(init);
        lemma_op_bodies_declare_metadata(last);
        assert forall|k: int|
            0 <= k < ops_bodies(ops).len() implies declares_script_metadata(
            #[trigger] ops_bodies(ops)[k],
        ) by {
            if k < ops_bodies(init).len() {
                assert(ops_bodies(ops)[k] == ops_bodies(init)[k]);
            } else {
                assert(ops_bodies(ops)[k] == op_bodies(last)[k - ops_bodies(init).len()]);
            }
        }
    }
}

proof fn lemma_defines_bodies_declare_metadata(ds: Seq<Define>)
    ensures
        forall|k: int|
            0 <= k < defines_bodies(ds).len() ==> declares_script_metadata(
                #[trigger] defines_bodies(ds)[k],
            ),
    decreases ds.len(),
{
    if ds.len() > 0 {
        let init = ds.drop_last();
        lemma_defines_bodies_declare_metadata(init);
        lemma_ops_bodies_declare_metadata(ds.last().ops@);
        assert forall|k: int|
            0 <= k < defines_bodies(ds).len() implies declares_script_metadata(
            #[trigger] defines_bodies(ds)[k],
        ) by {
            if k < defines_bodies(init).len() {
                assert(defines_bodies(ds)[k] == defines_bodies(init)[k]);
            } else {
                assert(defines_bodies(ds)[k] == ops_bodies(ds.last().ops@)[k - defines_bodies(
                    init,
                ).len()]);
            }
        }
    }
}

proof fn lemma_rules_bodies_declare_metadata(rs: Seq<Rule>)
    ensures
        forall|k: int|
            0 <= k < rules_bodies(rs).len() ==> declares_script_metadata(
                #[trigger] rules_bodies(rs)[k],
            ),
    decreases rs.len(),
{
    if rs.len() > 0 {
        let init = rs.drop_last();
        lemma_rules_bodies_declare_metadata(init);
        lemma_ops_bodies_declare_metadata(rs.last().ops@);
        assert forall|k: int|
            0 <= k < rules_bodies(rs).len() implies declares_script_metadata(
            #[trigger] rules_bodies(rs)[k],
        ) by {
            if k < rules_bodies(init).len() {
                assert(rules_bodies(rs)[k] == rules_bodies(init)[k]);
            } else {
                assert(rules_bodies(rs)[k] == ops_bodies(rs.last().ops@)[k - rules_bodies(
                    init,
                ).len()]);
            }
        }
    }
}

/// Only scripts that declare PEP 723 inline dependencies are collected for
/// preparation under uv: every body `collect_pep723_bodies` returns has a
/// line that, with its leading whitespace trimmed, starts with
/// `# /// script`.
pub proof fn lemma_collected_bodies_declare_metadata(rs: RuleSet)
    ensures
        forall|k: int|
            0 <= k < ruleset_bodies(rs).len() ==> declares_script_metadata(
                #[trigger] ruleset_bodies(rs)[k],
            ),
{
    lemma_defines_bodies_declare_metadata(rs.defines@);
    lemma_rules_bodies_declare_metadata(rs.rules@);
    let d = defines_bodies(rs.defines@);
    assert forall|k: int|
        0 <= k < ruleset_bodies(rs).len() implies declares_script_metadata(
        #[trigger] ruleset_bodies(rs)[k],
    ) by {
        if k < d.len() {
            assert(ruleset_bodies(rs)[k] == d[k]);
        } else {
            assert(ruleset_bodies(rs)[k] == rules_bodies(rs.rules@)[k - d.len()]);
        }
    }
}

/// Walking two chains one after the other collects what walking them as one
/// chain does: no chain stops early, and nothing is dropped or reordered.
pub proof fn lemma_ops_bodies_concat(a: Seq<Op>, b: Seq<Op>)
    ensures
        ops_bodies(a + b) == ops_bodies(a) + ops_bodies(b),
    decreases b.len(),
{
    if b.len() == 0 {
        assert(a + b =~= a);
        assert(ops_bodies(a) + ops_bodies(b) =~= ops_bodies(a));
    } else {
        let c = a + b;
        let init = b.subrange(0, b.len() - 1);
        lemma_ops_bodies_concat(a, init);
        assert(c.subrange(0, c.len() - 1) =~= a + init);
        assert(c[c.len() - 1] == b[b.len() - 1]);
        assert(ops_bodies(c) =~= ops_bodies(a) + ops_bodies(b));
    }
}

/// A chain of one operation collects what that operation holds.
pub proof fn lemma_ops_bodies_single(op: Op)
    ensures
        ops_bodies(seq![op]) == op_bodies(op),
{
    let one = seq![op];
    assert(one.subrange(0, 0).len() == 0);
    assert(ops_bodies(one.subrange(0, 0)) =~= Seq::<Seq<char>>::empty());
    assert(one[0] == op);
    assert(ops_bodies(one) == ops_bodies(one.subrange(0, 0)) + op_bodies(one[0]));
    assert(ops_bodies(one) =~= op_bodies(op));
}

/// A `python:` block contributes its body exactly when the body declares
/// PEP 723 inline dependencies; a `split` contributes what its two
/// sub-chains do, the one before first.
pub proof fn lemma_op_bodies_cases(op: Op)
    ensures
        op matches Op::Python(b) ==> (declares_script_metadata(b@) ==> op_bodies(op) == seq![b@])
            && (!declares_script_metadata(b@) ==> op_bodies(op).len() == 0),
        op matches Op::Split { pre, post } ==> op_bodies(op) == ops_bodies(pre@) + ops_bodies(
            post@,
        ),
        op is Other ==> op_bodies(op).len() == 0,
{
}

/// Every `python:` body of a chain that declares PEP 723 inline
/// dependencies is collected: it occurs among the chain's bodies, after
/// everything collected from the operations before it.
pub proof fn lemma_declaring_body_is_collected(ops: Seq<Op>, k: int)
    requires
        0 <= k < ops.len(),
        ops[k] is Python,
        declares_script_metadata(ops[k]->Python_0@),
    ensures
        ops_bodies(ops).contains(ops[k]->Python_0@),
        ops_bodies(ops)[ops_bodies(ops.take(k)).len() as int] == ops[k]->Python_0@,
{
    let b = ops[k]->Python_0@;
    let before = ops.take(k);
    let after = ops.skip(k + 1);
    assert(ops =~= before + seq![ops[k]] + after);
    lemma_ops_bodies_concat(before + seq![ops[k]], after);
    lemma_ops_bodies_concat(before, seq![ops[k]]);
    lemma_ops_bodies_single(ops[k]);
    let i = ops_bodies(before).len() as int;
    assert(ops_bodies(ops) == ops_bodies(before) + seq![b] + ops_bodies(after));
    assert(ops_bodies(ops)[i] == b);
}

} // verus!
