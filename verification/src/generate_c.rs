//! The planning half of the C decoder generator: which instructions the
//! decision tree holds, in which order and under which unique struct names
//! they are emitted, which mnemonics and classes the enums list, and the
//! nested conditionals that decode an instruction word.

use crate::text::{
    ascii_lower, ascii_upper, dots_to_underscores, hex_padded, hex_word, lemma_str_lt_order, make_ascii_uppercase,
    hex_literal, hex_u64, replace_dots, sorted_distinct, str_less, str_lt, strictly_increasing, texts, to_lowercase,
    unicode_lowercase,
};
use vstd::arithmetic::power2::pow2;
use vstd::prelude::*;

verus! {

/// A bit field of an operand, as the generated tables list it.
pub struct BitFieldRecord {
    /// The name of the field.
    pub name: String,
    pub lsb: u8,
    pub width: u8,
}

/// An operand of an instruction, with its kind, class and qualifiers by name.
pub struct OperandRecord {
    pub kind: String,
    pub class: String,
    pub qualifiers: Vec<String>,
    pub bit_fields: Vec<BitFieldRecord>,
}

/// An instruction definition as the generator reads it: names are the
/// table names of the kinds, classes and qualifiers, and `flags` holds the
/// value of each flag that is set, in table order.
pub struct InsnRecord {
    pub mnemonic: String,
    pub opcode: u32,
    pub mask: u32,
    pub class: String,
    pub feature_set: String,
    pub operands: Vec<OperandRecord>,
    pub flags: Vec<u64>,
}

/// An instruction at a leaf of the decision tree.
pub struct LeafInsn {
    pub insn: InsnRecord,
}

/// A node of the decoder's decision tree.
pub enum DecisionTreeNode {
    /// Instructions told apart by their full mask and opcode.
    Leaf { insns: Vec<LeafInsn> },
    /// A test of bit `decision_bit` of the instruction word.
    Branch { decision_bit: u32, zero: Option<Box<DecisionTreeNode>>, one: Option<Box<DecisionTreeNode>> },
}

/// A decision tree, possibly empty.
pub type DecisionTree = Option<Box<DecisionTreeNode>>;

/// The instructions held by a sequence of leaf entries.
pub open spec fn leaf_insns(leaves: Seq<LeafInsn>) -> Seq<InsnRecord> {
    leaves.map_values(|l: LeafInsn| l.insn)
}

/// The instructions of a tree, leaves in order, the zero branch before the one branch.
pub open spec fn tree_insns(tree: DecisionTree) -> Seq<InsnRecord>
    decreases tree,
{
    match tree {
        None => seq![],
        Some(node) => match *node {
            DecisionTreeNode::Leaf { insns } => leaf_insns(insns@),
            DecisionTreeNode::Branch { decision_bit, zero, one } => tree_insns(zero) + tree_insns(
                one,
            ),
        },
    }
}

/// The records behind a sequence of references.
pub open spec fn records(s: Seq<&InsnRecord>) -> Seq<InsnRecord> {
    s.map_values(|r: &InsnRecord| *r)
}

/// Appends the instructions of `tree` to `insns`.
fn collect_insns_recursive<'a>(tree: &'a DecisionTree, insns: &mut Vec<&'a InsnRecord>)
    ensures
        records(final(insns)@) == records(old(insns)@) + tree_insns(*tree),
    decreases tree,
{
    match tree {
        None => {
            assert(records(insns@) =~= records(old(insns)@) + tree_insns(*tree));
        },
        Some(node) => match &**node {
            DecisionTreeNode::Leaf { insns: leaves } => {
                let mut i: usize = 0;
                while i < leaves.len()
                    invariant
                        i <= leaves@.len(),
                        records(insns@) == records(old(insns)@) + leaf_insns(leaves@.take(i as int)),
                    decreases leaves@.len() - i,
                {
                    let ghost prev = insns@;
                    insns.push(&leaves[i].insn);
                    assert(records(insns@) =~= records(prev).push(leaves@[i as int].insn));
                    assert(leaf_insns(leaves@.take(i + 1)) =~= leaf_insns(leaves@.take(i as int)).push(leaves@[i as int].insn));
                    assert(records(insns@) =~= records(old(insns)@) + leaf_insns(leaves@.take(i + 1)));
                    i = i + 1;
                }
                assert(leaves@.take(leaves@.len() as int) =~= leaves@);
            },
            DecisionTreeNode::Branch { decision_bit, zero, one } => {
                collect_insns_recursive(zero, insns);
                collect_insns_recursive(one, insns);
                assert(records(insns@) =~= records(old(insns)@) + tree_insns(*tree));
            },
        },
    }
}

/// The order of emission: by mnemonic, ties kept in tree order.
pub open spec fn emitted_before(s: Seq<InsnRecord>, i: int, j: int) -> bool {
    str_lt(s[i].mnemonic@, s[j].mnemonic@) || (s[i].mnemonic@ == s[j].mnemonic@ && i < j)
}

proof fn lemma_emitted_before_transitive(s: Seq<InsnRecord>, i: int, j: int, k: int)
    requires
        emitted_before(s, i, j),
        emitted_before(s, j, k),
    ensures
        emitted_before(s, i, k),
{
    lemma_str_lt_order(s[i].mnemonic@, s[j].mnemonic@, s[k].mnemonic@);
    lemma_str_lt_order(s[j].mnemonic@, s[k].mnemonic@, s[i].mnemonic@);
}

/// `order` lists each index of `s` once, in emission order.
pub open spec fn is_emission_order(s: Seq<InsnRecord>, order: Seq<int>) -> bool {
    &&& order.len() == s.len()
    &&& forall|k: int| 0 <= k < order.len() ==> 0 <= #[trigger] order[k] < s.len()
    &&& forall|i: int| 0 <= i < s.len() ==> #[trigger] order.contains(i)
    &&& order.no_duplicates()
    &&& forall|a: int, b: int| 0 <= a < b < order.len() ==> emitted_before(s, #[trigger] order[a], #[trigger] order[b])
}

/// The indices of `insns` in emission order: a stable sort by mnemonic.
fn emission_order(insns: &Vec<&InsnRecord>) -> (order: Vec<usize>)
    ensures
        is_emission_order(records(insns@), order@.map_values(|i: usize| i as int)),
{
    let ghost s = records(insns@);
    let mut order: Vec<usize> = Vec::new();
    let mut i: usize = 0;
    while i < insns.len()
        invariant
            s == records(insns@),
            i <= insns@.len(),
            order@.len() == i,
            forall|k: int| 0 <= k < order@.len() ==> #[trigger] order@[k] < i,
            forall|j: usize| j < i ==> #[trigger] order@.contains(j),
            order@.no_duplicates(),
            forall|a: int, b: int| 0 <= a < b < order@.len() ==> emitted_before(s, #[trigger] order@[a] as int, #[trigger] order@[b] as int),
        decreases insns@.len() - i,
    {
        let mut p: usize = 0;
        while p < order.len() && !str_less(insns[i].mnemonic.as_str(), insns[order[p]].mnemonic.as_str())
            invariant
                s == records(insns@),
                i < insns@.len(),
                p <= order@.len(),
                forall|k: int| 0 <= k < order@.len() ==> #[trigger] order@[k] < i,
                forall|k: int| 0 <= k < p ==> emitted_before(s, #[trigger] order@[k] as int, i as int),
            decreases order@.len() - p,
        {
            proof {
                let o = order@[p as int] as int;
                lemma_str_lt_order(s[i as int].mnemonic@, s[o].mnemonic@, s[o].mnemonic@);
            }
            p = p + 1;
        }
        let ghost before = order@;
        proof {
            if p < order@.len() {
                assert(emitted_before(s, i as int, before[p as int] as int));
                assert forall|k: int| p <= k < before.len() implies emitted_before(s, i as int, #[trigger] before[k] as int) by {
                    if k > p {
                        lemma_emitted_before_transitive(s, i as int, before[p as int] as int, before[k] as int);
                    }
                }
            }
        }
        order.insert(p, i);
        proof {
            assert forall|a: int, b: int| 0 <= a < b < order@.len() implies emitted_before(s, #[trigger] order@[a] as int, #[trigger] order@[b] as int) by {
                if b < p {
                    assert(order@[a] == before[a] && order@[b] == before[b]);
                } else if b == p {
                    assert(order@[a] == before[a]);
                } else if a < p {
                    assert(order@[a] == before[a] && order@[b] == before[b - 1]);
                    lemma_emitted_before_transitive(s, before[a] as int, i as int, before[b - 1] as int);
                } else if a == p {
                    assert(order@[b] == before[b - 1]);
                } else {
                    assert(order@[a] == before[a - 1] && order@[b] == before[b - 1]);
                }
            }
            assert forall|j: usize| j < i + 1 implies #[trigger] order@.contains(j) by {
                if j < i {
                    assert(before.contains(j));
                    let k = choose|k: int| 0 <= k < before.len() && before[k] == j;
                    if k < p {
                        assert(order@[k] == j);
                    } else {
                        assert(order@[k + 1] == j);
                    }
                } else {
                    assert(order@[p as int] == j);
                }
            }
            assert forall|a: int, b: int| 0 <= a < b < order@.len() implies order@[a] != order@[b] by {
                if a == p as int {
                    assert(order@[b] == before[b - 1]);
                } else if b == p as int {
                    assert(order@[a] == before[a]);
                } else {
                    let aa = if a < p { a } else { a - 1 };
                    let bb = if b < p { b } else { b - 1 };
                    assert(order@[a] == before[aa] && order@[b] == before[bb]);
                }
            }
            assert forall|k: int| 0 <= k < order@.len() implies #[trigger] order@[k] < i + 1 by {
                if k < p {
                    assert(order@[k] == before[k]);
                } else if k > p {
                    assert(order@[k] == before[k - 1]);
                }
            }
        }
        i = i + 1;
    }
    proof {
        let o = order@.map_values(|i: usize| i as int);
        assert forall|j: int| 0 <= j < s.len() implies #[trigger] o.contains(j) by {
            assert(order@.contains(j as usize));
            let k = choose|k: int| 0 <= k < order@.len() && order@[k] == j as usize;
            assert(o[k] == j);
        }
        assert forall|a: int, b: int| 0 <= a < b < o.len() implies o[a] != o[b] by {
            assert(order@[a] != order@[b]);
        }
        assert forall|a: int, b: int| 0 <= a < b < o.len() implies emitted_before(s, #[trigger] o[a], #[trigger] o[b]) by {
            assert(emitted_before(s, order@[a] as int, order@[b] as int));
        }
    }
    order
}

/// The suffix that an operand adds to a struct name: `_` and its kind, and
/// with `with_qualifier` also `_` and its first qualifier where it has one.
pub open spec fn operand_suffix(op: OperandRecord, with_qualifier: bool) -> Seq<char> {
    seq!['_'] + op.kind@ + if with_qualifier && op.qualifiers@.len() > 0 {
        seq!['_'] + op.qualifiers@[0]@
    } else {
        seq![]
    }
}

/// The suffixes of a sequence of operands, in order.
pub open spec fn operands_suffix(ops: Seq<OperandRecord>, with_qualifier: bool) -> Seq<char>
    decreases ops.len(),
{
    if ops.len() == 0 {
        seq![]
    } else {
        operands_suffix(ops.drop_last(), with_qualifier) + operand_suffix(ops.last(), with_qualifier)
    }
}

/// The mnemonic in ASCII uppercase with `.` replaced by `_`.
pub open spec fn base_struct_name(insn: InsnRecord) -> Seq<char> {
    dots_to_underscores(ascii_upper(insn.mnemonic@))
}

/// The struct name of `insn` given the names already taken: the base name
/// with the operand kinds; where that is taken, with the first qualifier of
/// each operand too; where that is taken as well, that name followed by `_`
/// and the opcode as eight hexadecimal digits.
pub open spec fn struct_name_for(used: Set<Seq<char>>, insn: InsnRecord) -> Seq<char> {
    let plain = base_struct_name(insn) + operands_suffix(insn.operands@, false);
    let qualified = base_struct_name(insn) + operands_suffix(insn.operands@, true);
    if !used.contains(plain) {
        plain
    } else if !used.contains(qualified) {
        qualified
    } else {
        qualified + seq!['_'] + hex_padded(insn.opcode as nat, 8)
    }
}

/// The struct names of a sequence of instructions, each chosen against the
/// names of those before it.
pub open spec fn struct_names(insns: Seq<InsnRecord>) -> Seq<Seq<char>>
    decreases insns.len(),
{
    if insns.len() == 0 {
        seq![]
    } else {
        let prev = struct_names(insns.drop_last());
        prev.push(struct_name_for(prev.to_set(), insns.last()))
    }
}

/// Appends the suffix of each operand.
#[verifier::loop_isolation(false)]
fn append_operand_suffixes(name: &mut String, operands: &Vec<OperandRecord>, with_qualifier: bool)
    ensures
        final(name)@ == old(name)@ + operands_suffix(operands@, with_qualifier),
{
    proof {
        reveal_strlit("_");
    }
    let mut k: usize = 0;
    while k < operands.len()
        invariant
            k <= operands@.len(),
            name@ == old(name)@ + operands_suffix(operands@.take(k as int), with_qualifier),
        decreases operands@.len() - k,
    {
        let op = &operands[k];
        let ghost prev = name@;
        name.append("_");
        name.append(op.kind.as_str());
        if with_qualifier && op.qualifiers.len() > 0 {
            name.append("_");
            name.append(op.qualifiers[0].as_str());
        }
        assert(name@ =~= prev + operand_suffix(*op, with_qualifier));
        assert(operands@.take(k + 1).drop_last() =~= operands@.take(k as int));
        assert(operands@.take(k + 1).last() == *op);
        assert(operands_suffix(operands@.take(k + 1), with_qualifier) == operands_suffix(
            operands@.take(k as int),
            with_qualifier,
        ) + operand_suffix(*op, with_qualifier));
        assert(name@ =~= old(name)@ + operands_suffix(operands@.take(k + 1), with_qualifier));
        k = k + 1;
    }
    assert(operands@.take(operands@.len() as int) =~= operands@);
}

/// Whether `names` holds the text of `s`.
fn contains_text(names: &Vec<String>, s: &String) -> (found: bool)
    ensures
        found == texts(names@).contains(s@),
{
    let mut k: usize = 0;
    while k < names.len()
        invariant
            k <= names@.len(),
            forall|j: int| 0 <= j < k ==> names@[j]@ != s@,
        decreases names@.len() - k,
    {
        if names[k] == *s {
            assert(texts(names@)[k as int] == s@);
            return true;
        }
        k = k + 1;
    }
    assert forall|j: int| 0 <= j < texts(names@).len() implies texts(names@)[j] != s@ by {
        assert(names@[j]@ != s@);
    }
    false
}

/// The struct names of the instructions in the order they are emitted.
#[verifier::loop_isolation(false)]
fn struct_names_of(insns: &Vec<&InsnRecord>) -> (names: Vec<String>)
    ensures
        texts(names@) == struct_names(records(insns@)),
{
    proof {
        reveal_strlit("_");
    }
    let mut names: Vec<String> = Vec::new();
    let mut k: usize = 0;
    while k < insns.len()
        invariant
            k <= insns@.len(),
            texts(names@) == struct_names(records(insns@).take(k as int)),
        decreases insns@.len() - k,
    {
        let insn = insns[k];
        let ghost prefix = records(insns@).take(k as int);
        let ghost used = texts(names@).to_set();
        let mut upper = insn.mnemonic.clone();
        make_ascii_uppercase(&mut upper);
        let base = replace_dots(upper.as_str());
        let mut name = base.clone();
        append_operand_suffixes(&mut name, &insn.operands, false);
        if contains_text(&names, &name) {
            name = base.clone();
            append_operand_suffixes(&mut name, &insn.operands, true);
            if contains_text(&names, &name) {
                name.append("_");
                let hex = hex_word(insn.opcode);
                name.append(hex.as_str());
            }
        }
        assert(name@ == struct_name_for(used, *insn));
        names.push(name);
        assert(records(insns@).take(k + 1).drop_last() =~= prefix);
        assert(records(insns@).take(k + 1).last() == *insn);
        assert(texts(names@) =~= struct_names(records(insns@).take(k + 1)));
        k = k + 1;
    }
    assert(records(insns@).take(insns@.len() as int) =~= records(insns@));
    names
}

/// The enum name of an instruction's mnemonic: lowercase, `.` replaced by `_`.
pub open spec fn mnemonic_enum_name(insn: InsnRecord) -> Seq<char> {
    dots_to_underscores(unicode_lowercase(insn.mnemonic@))
}

/// What the generated instruction tables are made of.
pub struct InsnStructsPlan<'a> {
    /// The instructions of the tree in the order they are emitted.
    pub insns: Vec<&'a InsnRecord>,
    /// The struct name of each instruction, in the same order.
    pub names: Vec<String>,
    /// The distinct mnemonic enum names, in increasing order.
    pub mnemonics: Vec<String>,
    /// The distinct instruction class names, in increasing order.
    pub classes: Vec<String>,
    /// The mnemonic identifier each instruction's opcode builder uses, in
    /// emission order: the mnemonic with `.` replaced by `_`.
    pub mnemonic_idents: Vec<String>,
}

/// A string of ASCII characters none of which is an uppercase letter.
pub open spec fn is_lowercase_ascii(s: Seq<char>) -> bool {
    &&& vstd::utf8::is_ascii_chars(s)
    &&& forall|i: int| 0 <= i < s.len() ==> !('A' <= #[trigger] s[i] && s[i] <= 'Z')
}

/// What the plan of the instruction tables of `tree` holds: the
/// instructions in emission order, their struct names, the sorted distinct
/// mnemonic enum names and class names, and the mnemonic identifier of each
/// builder, which the mnemonic enum declares whenever the mnemonic is
/// lowercase ASCII.
pub open spec fn is_insn_structs_plan(tree: DecisionTree, plan: InsnStructsPlan) -> bool {
    &&& emitted_in_order(tree_insns(tree), records(plan.insns@))
    &&& plan.names@.len() == plan.insns@.len()
    &&& plan.mnemonic_idents@.len() == plan.insns@.len()
    &&& texts(plan.names@) == struct_names(records(plan.insns@))
    &&& strictly_increasing(texts(plan.mnemonics@))
    &&& texts(plan.mnemonics@).to_set() == tree_insns(tree).map_values(
        |i: InsnRecord| mnemonic_enum_name(i),
    ).to_set()
    &&& strictly_increasing(texts(plan.classes@))
    &&& texts(plan.classes@).to_set() == tree_insns(tree).map_values(|i: InsnRecord| i.class@).to_set()
    &&& texts(plan.mnemonic_idents@) == records(plan.insns@).map_values(
        |i: InsnRecord| dots_to_underscores(i.mnemonic@),
    )
    &&& forall|k: int|
        0 <= k < plan.insns@.len() && is_lowercase_ascii(#[trigger] plan.insns@[k].mnemonic@)
            ==> texts(plan.mnemonics@).contains(texts(plan.mnemonic_idents@)[k])
}

/// Whether `emitted` lists the instructions of `all` in emission order.
pub open spec fn emitted_in_order(all: Seq<InsnRecord>, emitted: Seq<InsnRecord>) -> bool {
    exists|order: Seq<int>|
        #[trigger] is_emission_order(all, order) && emitted == order.map_values(|i: int| all[i])
}

/// Plans the instruction tables of the decision tree: the instructions in
/// emission order with their struct names, the mnemonic enum and the
/// classes.
pub fn plan_insn_structs<'a>(tree: &'a DecisionTree) -> (plan: InsnStructsPlan<'a>)
    ensures
        is_insn_structs_plan(*tree, plan),
{
    let mut collected: Vec<&'a InsnRecord> = Vec::new();
    collect_insns_recursive(tree, &mut collected);
    assert(records(collected@) =~= tree_insns(*tree));
    let ghost all = tree_insns(*tree);

    let order = emission_order(&collected);
    let ghost o = order@.map_values(|i: usize| i as int);
    let mut insns: Vec<&'a InsnRecord> = Vec::new();
    let mut k: usize = 0;
    while k < order.len()
        invariant
            k <= order@.len(),
            all == records(collected@),
            is_emission_order(all, o),
            o == order@.map_values(|i: usize| i as int),
            records(insns@) == o.take(k as int).map_values(|i: int| all[i]),
        decreases order@.len() - k,
    {
        assert(0 <= o[k as int] < all.len());
        let ghost prev = insns@;
        insns.push(collected[order[k]]);
        assert(records(insns@) =~= records(prev).push(all[o[k as int]]));
        assert(o.take(k + 1).map_values(|i: int| all[i]) =~= o.take(k as int).map_values(|i: int| all[i]).push(all[o[k as int]]));
        k = k + 1;
    }
    assert(o.take(o.len() as int) =~= o);
    assert(is_emission_order(all, o) && records(insns@) == o.map_values(|i: int| all[i]));

    let names = struct_names_of(&insns);

    let mut mnemonic_names: Vec<String> = Vec::new();
    let mut class_names: Vec<String> = Vec::new();
    let mut k: usize = 0;
    while k < collected.len()
        invariant
            k <= collected@.len(),
            all == records(collected@),
            texts(mnemonic_names@) == all.take(k as int).map_values(|i: InsnRecord| mnemonic_enum_name(i)),
            texts(class_names@) == all.take(k as int).map_values(|i: InsnRecord| i.class@),
            forall|j: int|
                0 <= j < k && vstd::utf8::is_ascii_chars(#[trigger] all[j].mnemonic@) ==> unicode_lowercase(
                    all[j].mnemonic@,
                ) == ascii_lower(all[j].mnemonic@),
        decreases collected@.len() - k,
    {
        let insn = collected[k];
        let lower = to_lowercase(insn.mnemonic.as_str());
        assert(all[k as int] == *insn);
        let name = replace_dots(lower.as_str());
        let ghost prev_m = mnemonic_names@;
        let ghost prev_c = class_names@;
        mnemonic_names.push(name);
        class_names.push(insn.class.clone());
        assert(texts(mnemonic_names@) =~= texts(prev_m).push(mnemonic_enum_name(*insn)));
        assert(texts(class_names@) =~= texts(prev_c).push(insn.class@));
        assert(all.take(k + 1) =~= all.take(k as int).push(all[k as int]));
        assert(all.take(k + 1).map_values(|i: InsnRecord| mnemonic_enum_name(i)) =~= all.take(k as int).map_values(|i: InsnRecord| mnemonic_enum_name(i)).push(mnemonic_enum_name(all[k as int])));
        assert(all.take(k + 1).map_values(|i: InsnRecord| i.class@) =~= all.take(k as int).map_values(|i: InsnRecord| i.class@).push(all[k as int].class@));
        k = k + 1;
    }
    assert(all.take(all.len() as int) =~= all);
    let mnemonics = sorted_distinct(&mnemonic_names);
    let classes = sorted_distinct(&class_names);

    let mut mnemonic_idents: Vec<String> = Vec::new();
    let mut k: usize = 0;
    while k < insns.len()
        invariant
            k <= insns@.len(),
            texts(mnemonic_idents@) == records(insns@).take(k as int).map_values(
                |i: InsnRecord| dots_to_underscores(i.mnemonic@),
            ),
        decreases insns@.len() - k,
    {
        let ghost prev = mnemonic_idents@;
        mnemonic_idents.push(replace_dots(insns[k].mnemonic.as_str()));
        assert(texts(mnemonic_idents@) =~= texts(prev).push(dots_to_underscores(insns@[k as int].mnemonic@)));
        assert(records(insns@).take(k + 1).map_values(|i: InsnRecord| dots_to_underscores(i.mnemonic@)) =~= records(
            insns@,
        ).take(k as int).map_values(|i: InsnRecord| dots_to_underscores(i.mnemonic@)).push(
            dots_to_underscores(insns@[k as int].mnemonic@),
        ));
        k = k + 1;
    }
    assert(records(insns@).take(insns@.len() as int) =~= records(insns@));
    let plan = InsnStructsPlan { insns, names, mnemonics, classes, mnemonic_idents };
    proof {
        lemma_struct_names_len(records(plan.insns@));
        assert(texts(plan.names@).len() == plan.names@.len());
        assert(texts(plan.mnemonic_idents@).len() == plan.mnemonic_idents@.len());
        let emitted = records(plan.insns@);
        assert forall|k: int|
            0 <= k < plan.insns@.len() && is_lowercase_ascii(#[trigger] plan.insns@[k].mnemonic@)
                implies texts(plan.mnemonics@).contains(texts(plan.mnemonic_idents@)[k]) by {
            let m = plan.insns@[k].mnemonic@;
            let j = o[k];
            assert(emitted[k] == all[j]);
            assert(all[j].mnemonic@ == m);
            assert(ascii_lower(m) =~= m);
            assert(mnemonic_enum_name(all[j]) == dots_to_underscores(m));
            assert(tree_insns(*tree).map_values(|i: InsnRecord| mnemonic_enum_name(i))[j] == dots_to_underscores(m));
            assert(texts(plan.mnemonics@).to_set().contains(dots_to_underscores(m)));
        }
    }
    plan
}

/// The struct name that a table filled in emission order maps an opcode
/// and mask to: that of the last instruction with both.
pub open spec fn planned_name(insns: Seq<InsnRecord>, names: Seq<Seq<char>>, opcode: u32, mask: u32) -> Option<
    Seq<char>,
>
    decreases insns.len(),
{
    if insns.len() == 0 {
        None
    } else if insns.last().opcode == opcode && insns.last().mask == mask {
        Some(names[insns.len() - 1])
    } else {
        planned_name(insns.drop_last(), names, opcode, mask)
    }
}

/// `v` as a C hexadecimal literal of at least six digits.
pub open spec fn hex_lit(v: u32) -> Seq<char> {
    seq!['0', 'x'] + hex_padded(v as nat, 6)
}

/// The lines that test for one instruction and build its opcode.
pub open spec fn leaf_lines(insn: InsnRecord, name: Seq<char>) -> Seq<Seq<char>> {
    let test = if insn.mask == 0xffff_ffffu32 {
        "if(insn == "@ + hex_lit(insn.opcode) + ") {"@
    } else {
        "if((insn & "@ + hex_lit(insn.mask) + ") == "@ + hex_lit(insn.opcode) + ") {"@
    };
    seq![test, "return DA64_"@ + name + "_make_opcode(insn);"@, "}"@]
}

/// The lines of a leaf's instructions, in order.
pub open spec fn leaves_lines(leaves: Seq<LeafInsn>, insns: Seq<InsnRecord>, names: Seq<Seq<char>>) -> Seq<
    Seq<char>,
>
    decreases leaves.len(),
{
    if leaves.len() == 0 {
        seq![]
    } else {
        let insn = leaves.last().insn;
        let name = match planned_name(insns, names, insn.opcode, insn.mask) {
            Some(n) => n,
            None => seq![],
        };
        leaves_lines(leaves.drop_last(), insns, names) + leaf_lines(insn, name)
    }
}

/// The nested C conditionals that decode an instruction word with the tree.
pub open spec fn conditional_lines(tree: DecisionTree, insns: Seq<InsnRecord>, names: Seq<Seq<char>>) -> Seq<
    Seq<char>,
>
    decreases tree,
{
    match tree {
        None => seq![],
        Some(node) => match *node {
            DecisionTreeNode::Leaf { insns: leaves } => leaves_lines(leaves@, insns, names),
            DecisionTreeNode::Branch { decision_bit, zero, one } => seq![
                "if((insn & "@ + hex_lit(pow2(decision_bit as nat) as u32) + ") == 0) {"@,
            ] + conditional_lines(zero, insns, names) + seq!["} else {"@] + conditional_lines(
                one,
                insns,
                names,
            ) + seq!["}"@],
        },
    }
}

/// Every decision bit of the tree is a bit of a 32-bit word.
pub open spec fn decision_bits_valid(tree: DecisionTree) -> bool
    decreases tree,
{
    match tree {
        None => true,
        Some(node) => match *node {
            DecisionTreeNode::Leaf { .. } => true,
            DecisionTreeNode::Branch { decision_bit, zero, one } => decision_bit < 32
                && decision_bits_valid(zero) && decision_bits_valid(one),
        },
    }
}

/// Whether every decision bit of the tree is a bit of a 32-bit word.
pub fn check_decision_bits(tree: &DecisionTree) -> (valid: bool)
    ensures
        valid == decision_bits_valid(*tree),
    decreases tree,
{
    match tree {
        None => true,
        Some(node) => match &**node {
            DecisionTreeNode::Leaf { .. } => true,
            DecisionTreeNode::Branch { decision_bit, zero, one } => *decision_bit < 32
                && check_decision_bits(zero) && check_decision_bits(one),
        },
    }
}

/// Every instruction of the tree has a planned struct name.
pub open spec fn names_cover(tree: DecisionTree, insns: Seq<InsnRecord>, names: Seq<Seq<char>>) -> bool {
    forall|k: int|
        0 <= k < tree_insns(tree).len() ==> #[trigger] planned_name(
            insns,
            names,
            tree_insns(tree)[k].opcode,
            tree_insns(tree)[k].mask,
        ) is Some
}

/// The struct name the plan gives an opcode and mask.
fn lookup_name<'b>(insns: &Vec<&InsnRecord>, names: &'b Vec<String>, opcode: u32, mask: u32) -> (name: Option<&'b String>)
    requires
        names@.len() == insns@.len(),
    ensures
        match planned_name(records(insns@), texts(names@), opcode, mask) {
            Some(n) => name matches Some(s) && s@ == n,
            None => name is None,
        },
{
    let mut k = insns.len();
    assert(records(insns@).take(k as int) =~= records(insns@));
    while k > 0
        invariant
            k <= insns@.len(),
            names@.len() == insns@.len(),
            planned_name(records(insns@), texts(names@), opcode, mask) == planned_name(
                records(insns@).take(k as int),
                texts(names@),
                opcode,
                mask,
            ),
        decreases k,
    {
        let ghost pre = records(insns@).take(k as int);
        assert(pre.last() == *insns@[k - 1]);
        assert(pre.drop_last() =~= records(insns@).take(k - 1));
        if insns[k - 1].opcode == opcode && insns[k - 1].mask == mask {
            return Some(&names[k - 1]);
        }
        k = k - 1;
    }
    None
}

/// Appends the lines that test for one instruction and build its opcode.
fn push_leaf_lines(tokens: &mut Vec<String>, insn: &InsnRecord, name: &String)
    ensures
        texts(final(tokens)@) == texts(old(tokens)@) + leaf_lines(*insn, name@),
{
    let opcode_hex = hex_literal(insn.opcode);
    let mut test;
    if insn.mask == 0xffff_ffffu32 {
        test = String::from_str("if(insn == ");
        test.append(opcode_hex.as_str());
        test.append(") {");
    } else {
        let mask_hex = hex_literal(insn.mask);
        test = String::from_str("if((insn & ");
        test.append(mask_hex.as_str());
        test.append(") == ");
        test.append(opcode_hex.as_str());
        test.append(") {");
    }
    proof {
        reveal_strlit("0x");
    }
    let mut ret = String::from_str("return DA64_");
    ret.append(name.as_str());
    ret.append("_make_opcode(insn);");
    let ghost before = tokens@;
    assert(hex_lit(insn.opcode) == opcode_hex@);
    assert(test@ == leaf_lines(*insn, name@)[0]);
    assert(ret@ == leaf_lines(*insn, name@)[1]);
    let close = String::from_str("}");
    tokens.push(test);
    tokens.push(ret);
    tokens.push(close);
    assert(texts(tokens@) =~= texts(before) + leaf_lines(*insn, name@));
}

/// The C conditionals that decode an instruction word with the decision
/// tree, naming each instruction's opcode builder by its planned struct name.
pub fn decision_tree_to_rust_recursive_conditionals(tree: &DecisionTree, plan: &InsnStructsPlan) -> (tokens: Vec<String>)
    requires
        decision_bits_valid(*tree),
        plan.names@.len() == plan.insns@.len(),
        names_cover(*tree, records(plan.insns@), texts(plan.names@)),
    ensures
        texts(tokens@) == conditional_lines(*tree, records(plan.insns@), texts(plan.names@)),
    decreases tree,
{
    let ghost ins = records(plan.insns@);
    let ghost nms = texts(plan.names@);
    let mut tokens: Vec<String> = Vec::new();
    match tree {
        None => {
            assert(texts(tokens@) =~= conditional_lines(*tree, ins, nms));
            tokens
        },
        Some(node) => match &**node {
            DecisionTreeNode::Leaf { insns: leaves } => {
                let mut i: usize = 0;
                while i < leaves.len()
                    invariant
                        i <= leaves@.len(),
                        plan.names@.len() == plan.insns@.len(),
                        ins == records(plan.insns@),
                        nms == texts(plan.names@),
                        tree_insns(*tree) == leaf_insns(leaves@),
                        names_cover(*tree, ins, nms),
                        texts(tokens@) == leaves_lines(leaves@.take(i as int), ins, nms),
                    decreases leaves@.len() - i,
                {
                    let insn = &leaves[i].insn;
                    assert(leaf_insns(leaves@)[i as int] == *insn);
                    assert(planned_name(ins, nms, insn.opcode, insn.mask) is Some);
                    let name = lookup_name(&plan.insns, &plan.names, insn.opcode, insn.mask);
                    match name {
                        Some(name) => {
                            push_leaf_lines(&mut tokens, insn, name);
                        },
                        None => {},
                    }
                    assert(leaves@.take(i + 1).drop_last() =~= leaves@.take(i as int));
                    assert(leaves@.take(i + 1).last() == leaves@[i as int]);
                    i = i + 1;
                }
                assert(leaves@.take(leaves@.len() as int) =~= leaves@);
                tokens
            },
            DecisionTreeNode::Branch { decision_bit, zero, one } => {
                proof {
                    assert(tree_insns(*tree) == tree_insns(*zero) + tree_insns(*one));
                    assert forall|k: int| 0 <= k < tree_insns(*zero).len() implies #[trigger] planned_name(
                        ins,
                        nms,
                        tree_insns(*zero)[k].opcode,
                        tree_insns(*zero)[k].mask,
                    ) is Some by {
                        assert(tree_insns(*tree)[k] == tree_insns(*zero)[k]);
                    }
                    assert forall|k: int| 0 <= k < tree_insns(*one).len() implies #[trigger] planned_name(
                        ins,
                        nms,
                        tree_insns(*one)[k].opcode,
                        tree_insns(*one)[k].mask,
                    ) is Some by {
                        assert(tree_insns(*tree)[tree_insns(*zero).len() + k] == tree_insns(*one)[k]);
                    }
                }
                let mut zero_branch = decision_tree_to_rust_recursive_conditionals(zero, plan);
                let mut one_branch = decision_tree_to_rust_recursive_conditionals(one, plan);
                proof {
                    vstd::bits::lemma_u32_pow2_no_overflow(*decision_bit as nat);
                    vstd::bits::lemma_u32_shl_is_mul(1, *decision_bit);
                    reveal_strlit("0x");
                }
                let bit_mask = 1u32 << *decision_bit;
                assert(bit_mask == pow2(*decision_bit as nat) as u32);
                let decision_mask = hex_literal(bit_mask);
                let ghost zb = zero_branch@;
                let ghost ob = one_branch@;
                let mut test = String::from_str("if((insn & ");
                test.append(decision_mask.as_str());
                test.append(") == 0) {");
                assert(test@ == "if((insn & "@ + hex_lit(pow2(*decision_bit as nat) as u32) + ") == 0) {"@);
                tokens.push(test);
                tokens.append(&mut zero_branch);
                tokens.push(String::from_str("} else {"));
                tokens.append(&mut one_branch);
                tokens.push(String::from_str("}"));
                assert(texts(zb) == conditional_lines(*zero, ins, nms));
                assert(texts(tokens@) =~= seq![test@] + texts(zb) + seq!["} else {"@] + texts(ob) + seq!["}"@]);
                assert(texts(tokens@) =~= conditional_lines(*tree, ins, nms));
                tokens
            },
        },
    }
}

/// There is one struct name per instruction.
pub proof fn lemma_struct_names_len(insns: Seq<InsnRecord>)
    ensures
        struct_names(insns).len() == insns.len(),
    decreases insns.len(),
{
    if insns.len() > 0 {
        lemma_struct_names_len(insns.drop_last());
    }
}

/// An opcode and mask that some planned instruction has get a name.
proof fn lemma_planned_name_found(insns: Seq<InsnRecord>, names: Seq<Seq<char>>, p: int)
    requires
        0 <= p < insns.len(),
    ensures
        planned_name(insns, names, insns[p].opcode, insns[p].mask) is Some,
    decreases insns.len(),
{
    if p < insns.len() - 1 {
        lemma_planned_name_found(insns.drop_last(), names, p);
    }
}

/// Every instruction of the tree gets a struct name in the tables planned for
/// it, so the decoder only names opcode builders that the tables define.
pub proof fn lemma_plan_names_cover(tree: DecisionTree, emitted: Seq<InsnRecord>, names: Seq<Seq<char>>)
    requires
        emitted_in_order(tree_insns(tree), emitted),
    ensures
        names_cover(tree, emitted, names),
{
    let all = tree_insns(tree);
    let order = choose|order: Seq<int>|
        #[trigger] is_emission_order(all, order) && emitted == order.map_values(|i: int| all[i]);
    assert forall|k: int| 0 <= k < all.len() implies #[trigger] planned_name(
        emitted,
        names,
        all[k].opcode,
        all[k].mask,
    ) is Some by {
        assert(order.contains(k));
        let p = choose|p: int| 0 <= p < order.len() && order[p] == k;
        assert(emitted[p] == all[k]);
        lemma_planned_name_found(emitted, names, p);
    }
}

/// Plans the instruction tables of the tree and the conditionals of its
/// decoder; no conditionals where a decision bit lies outside a 32-bit word.
pub fn plan_decoder<'a>(tree: &'a DecisionTree) -> (planned: (InsnStructsPlan<'a>, Option<Vec<String>>))
    ensures
        is_insn_structs_plan(*tree, planned.0),
        planned.1 is Some <==> decision_bits_valid(*tree),
        planned.1 matches Some(lines) ==> texts(lines@) == conditional_lines(
            *tree,
            records(planned.0.insns@),
            texts(planned.0.names@),
        ),
{
    let plan = plan_insn_structs(tree);
    if !check_decision_bits(tree) {
        return (plan, None);
    }
    proof {
        lemma_plan_names_cover(*tree, records(plan.insns@), texts(plan.names@));
    }
    let lines = decision_tree_to_rust_recursive_conditionals(tree, &plan);
    (plan, Some(lines))
}

/// The text of the C prelude: the header comment, a blank line, then the C
/// definitions each generated file starts with.
pub open spec fn prelude_text(c_defs: Seq<char>) -> Seq<char> {
    "// Auto-generated.\n// The changes will be LOST.\n\n"@ + c_defs + "\n"@
}

/// The prelude of the generated C source, for the C definitions `c_defs`.
pub fn write_prelude(_decision_tree: &DecisionTree, c_defs: &str) -> (text: String)
    ensures
        text@ == prelude_text(c_defs@),
{
    let mut text = String::from_str("// Auto-generated.\n// The changes will be LOST.\n\n");
    text.append(c_defs);
    text.append("\n");
    text
}

/// The flags of a set in hexadecimal, joined by `|`.
pub open spec fn flag_terms(flags: Seq<u64>) -> Seq<char>
    decreases flags.len(),
{
    if flags.len() == 0 {
        seq![]
    } else if flags.len() == 1 {
        "0x"@ + hex_padded(flags[0] as nat, 1)
    } else {
        flag_terms(flags.drop_last()) + "|"@ + "0x"@ + hex_padded(flags.last() as nat, 1)
    }
}

/// The C expression of an instruction's flags: the empty-set constant when
/// none is set, otherwise each flag in hexadecimal, joined by `|`.
pub open spec fn flags_expression(flags: Seq<u64>) -> Seq<char> {
    if flags.len() == 0 {
        "DA64_InsnFlag_EMPTY"@
    } else {
        flag_terms(flags)
    }
}

/// The C expression of an instruction's flags.
pub fn insn_flags_expression(flags: &Vec<u64>) -> (expr: String)
    ensures
        expr@ == flags_expression(flags@),
{
    if flags.len() == 0 {
        return String::from_str("DA64_InsnFlag_EMPTY");
    }
    let mut expr = String::new();
    let mut k: usize = 0;
    while k < flags.len()
        invariant
            k <= flags@.len(),
            flags@.len() > 0,
            expr@ == flag_terms(flags@.take(k as int)),
        decreases flags@.len() - k,
    {
        if k > 0 {
            expr.append("|");
        }
        expr.append("0x");
        let hex = hex_u64(flags[k]);
        expr.append(hex.as_str());
        assert(flags@.take(k + 1).drop_last() =~= flags@.take(k as int));
        assert(flags@.take(k + 1).last() == flags@[k as int]);
        proof {
            if k == 0 {
                assert(flags@.take(0) =~= Seq::<u64>::empty());
                assert(expr@ =~= "0x"@ + hex_padded(flags@[0] as nat, 1)) by {
                    reveal_strlit("0x");
                }
            }
        }
        k = k + 1;
    }
    assert(flags@.take(flags@.len() as int) =~= flags@);
    expr
}

/// The names of a prefix of the instructions are the prefix of their names.
pub proof fn lemma_struct_names_prefix(insns: Seq<InsnRecord>, k: int)
    requires
        0 <= k <= insns.len(),
    ensures
        struct_names(insns.take(k)) == struct_names(insns).take(k),
    decreases insns.len(),
{
    lemma_struct_names_len(insns);
    if k < insns.len() {
        lemma_struct_names_prefix(insns.drop_last(), k);
        assert(insns.drop_last().take(k) =~= insns.take(k));
        assert(struct_names(insns).take(k) =~= struct_names(insns.drop_last()).take(k));
    } else {
        assert(insns.take(k) =~= insns);
        lemma_struct_names_len(insns);
        assert(struct_names(insns).take(k) =~= struct_names(insns));
    }
}

/// A struct name never repeats an earlier one unless the name with operand
/// kinds and the name with qualifiers were both taken, and it is then the
/// name with qualifiers followed by `_` and the opcode in hexadecimal.
pub proof fn lemma_struct_name_fresh(insns: Seq<InsnRecord>, k: int)
    requires
        0 <= k < insns.len(),
    ensures
        !struct_names(insns).take(k).contains(struct_names(insns)[k]) || struct_names(insns)[k]
            == base_struct_name(insns[k]) + operands_suffix(insns[k].operands@, true) + seq!['_']
            + hex_padded(insns[k].opcode as nat, 8),
{
    lemma_struct_names_prefix(insns, k + 1);
    lemma_struct_names_prefix(insns, k);
    let pre = insns.take(k + 1);
    assert(pre.drop_last() =~= insns.take(k));
    assert(pre.last() == insns[k]);
    lemma_struct_names_len(insns);
    assert(struct_names(pre)[k] == struct_names(insns)[k]);
}

} // verus!
