//! What holds of the grammar. It never moves a stream backwards. It is
//! sound: the tree it returns is spelled as the entries it consumed, and
//! ranges from the first of them to the last. It is complete: an expression
//! in the form that the grammar gives, written out as entries, is read back
//! as itself.

use crate::ast::{Ast, Op};
use crate::diagnostics::Span;
use crate::parser::buffer::{CursorView, Entry};
use crate::parser::literal::Literal;
use crate::parser::parse::StreamView;
use crate::parser::token::punct_at;
use crate::parsing::{
    additive, integer, multiplicative, primary, product, product_from, sum, sum_from, Outcome,
};
use vstd::prelude::*;

verus! {

/// A primary expression leaves the stream where it was or further on, in
/// the same entries: the test that the definitions of the grammar make
/// before they go on always holds.
pub proof fn lemma_primary_follows(s: StreamView<()>)
    requires
        s.cursor.in_bounds(),
    ensures
        primary(s).rest.follows(s),
    decreases s.remaining(), 0int,
{
    if punct_at(s.cursor, '(') {
        lemma_sum_follows(s.next());
    }
}

/// A product leaves the stream where it was or further on.
pub proof fn lemma_product_follows(s: StreamView<()>)
    requires
        s.cursor.in_bounds(),
    ensures
        product(s).rest.follows(s),
    decreases s.remaining(), 2int,
{
    lemma_primary_follows(s);
    let first = primary(s);
    if first.tree is Ok {
        lemma_product_from_follows(s.span(), first.tree->Ok_0, first.rest);
    }
}

/// The rest of a product leaves the stream where it was or further on.
pub proof fn lemma_product_from_follows(start: Span, left: Ast, s: StreamView<()>)
    requires
        s.cursor.in_bounds(),
    ensures
        product_from(start, left, s).rest.follows(s),
    decreases s.remaining(), 1int,
{
    if let Some(op) = multiplicative(s.cursor) {
        lemma_primary_follows(s.next());
        let right = primary(s.next());
        if let Ok(operand) = right.tree {
            lemma_product_from_follows(
                start,
                Ast::operation(start.merge(right.rest.prev_span), op, left, operand),
                right.rest,
            );
        }
    }
}

/// A sum leaves the stream where it was or further on.
pub proof fn lemma_sum_follows(s: StreamView<()>)
    requires
        s.cursor.in_bounds(),
    ensures
        sum(s).rest.follows(s),
    decreases s.remaining(), 4int,
{
    lemma_product_follows(s);
    let first = product(s);
    if first.tree is Ok {
        lemma_sum_from_follows(s.span(), first.tree->Ok_0, first.rest);
    }
}

/// The rest of a sum leaves the stream where it was or further on.
pub proof fn lemma_sum_from_follows(start: Span, left: Ast, s: StreamView<()>)
    requires
        s.cursor.in_bounds(),
    ensures
        sum_from(start, left, s).rest.follows(s),
    decreases s.remaining(), 3int,
{
    if let Some(op) = additive(s.cursor) {
        lemma_product_follows(s.next());
        let right = product(s.next());
        if let Ok(operand) = right.tree {
            lemma_sum_from_follows(
                start,
                Ast::operation(start.merge(right.rest.prev_span), op, left, operand),
                right.rest,
            );
        }
    }
}

/// What an entry says, its range left aside: a number, a sign, or something
/// that the grammar has no use for.
pub ghost enum Word {
    Number(u64),
    Sign(char),
    Other,
}

/// What `entry` says.
pub open spec fn word(entry: Entry) -> Word {
    match entry {
        Entry::Literal(Literal::Int(lit)) => Word::Number(lit.int as u64),
        Entry::Punct(punct) => Word::Sign(punct.ch),
        _ => Word::Other,
    }
}

/// What the entries from `from` up to `to` say.
pub open spec fn words(entries: Seq<Entry>, from: int, to: int) -> Seq<Word> {
    Seq::new((to - from) as nat, |i: int| word(entries[from + i]))
}

/// The sign of `op` as a character.
pub open spec fn sign(op: Op) -> char {
    match op {
        Op::Add => '+',
        Op::Sub => '-',
        Op::Mul => '*',
        Op::Div => '/',
    }
}

/// How `tree` is spelled: an integer as its number, an operation as its left
/// operand, its sign and its right operand, a group as what it holds between
/// parentheses.
pub open spec fn spelling(tree: Ast) -> Seq<Word>
    decreases tree,
{
    match tree {
        Ast::Int { val, .. } => seq![Word::Number(val)],
        Ast::Op { op, left, right, .. } => spelling(*left) + seq![Word::Sign(sign(op))] + spelling(
            *right,
        ),
        Ast::Group { expr, .. } => seq![Word::Sign('(')] + spelling(*expr) + seq![Word::Sign(')')],
    }
}

/// Whether the outcome `read` of parsing from state `s` on, with `before`
/// read already, is sound: where it is a tree, the tree is spelled as
/// `before` and then as the entries say that were consumed.
pub open spec fn sound_after(before: Seq<Word>, s: StreamView<()>, read: Outcome) -> bool {
    read.tree matches Ok(tree) ==> spelling(tree) == before + words(
        s.cursor.entries,
        s.cursor.position as int,
        read.rest.cursor.position as int,
    )
}

/// Whether the outcome `read` of parsing from state `s` on is sound: where
/// it is a tree, the tree is spelled as the entries say that were consumed.
pub open spec fn sound(s: StreamView<()>, read: Outcome) -> bool {
    sound_after(Seq::empty(), s, read)
}

proof fn lemma_words_join(entries: Seq<Entry>, from: int, middle: int, to: int)
    requires
        from <= middle <= to,
    ensures
        words(entries, from, middle) + words(entries, middle, to) == words(entries, from, to),
{
    assert(words(entries, from, middle) + words(entries, middle, to) =~= words(entries, from, to));
}

/// The tree of a primary expression is spelled as the entries that were
/// consumed for it.
pub proof fn lemma_primary_is_sound(s: StreamView<()>)
    requires
        s.cursor.in_bounds(),
    ensures
        sound(s, primary(s)),
    decreases s.remaining(), 0int,
{
    let entries = s.cursor.entries;
    let from = s.cursor.position as int;
    if punct_at(s.cursor, '(') {
        let inner = sum(s.next());
        lemma_sum_is_sound(s.next());
        lemma_sum_follows(s.next());
        if inner.tree is Ok && punct_at(inner.rest.cursor, ')') {
            let close = inner.rest.cursor.position as int;
            lemma_words_join(entries, from, from + 1, close);
            lemma_words_join(entries, from, close, close + 1);
            assert(words(entries, from, from + 1) =~= seq![Word::Sign('(')]);
            assert(words(entries, close, close + 1) =~= seq![Word::Sign(')')]);
            assert(Seq::<Word>::empty() + words(entries, from + 1, close) =~= words(
                entries,
                from + 1,
                close,
            ));
            assert(Seq::<Word>::empty() + words(entries, from, close + 1) =~= words(
                entries,
                from,
                close + 1,
            ));
        }
    } else {
        if integer(s).tree is Ok {
            assert(Seq::<Word>::empty() + words(entries, from, from + 1) =~= spelling(
                integer(s).tree->Ok_0,
            ));
        }
    }
}

/// The tree of a product is spelled as the entries that were consumed for
/// it.
pub proof fn lemma_product_is_sound(s: StreamView<()>)
    requires
        s.cursor.in_bounds(),
    ensures
        sound(s, product(s)),
    decreases s.remaining(), 2int,
{
    lemma_primary_is_sound(s);
    lemma_primary_follows(s);
    let first = primary(s);
    if let Ok(left) = first.tree {
        let entries = s.cursor.entries;
        let from = s.cursor.position as int;
        let middle = first.rest.cursor.position as int;
        let read = product_from(s.span(), left, first.rest);
        lemma_product_from_is_sound(s.span(), left, first.rest);
        lemma_product_from_follows(s.span(), left, first.rest);
        lemma_words_join(entries, from, middle, read.rest.cursor.position as int);
        if let Ok(tree) = read.tree {
            assert(spelling(left) =~= words(entries, from, middle));
            assert(spelling(tree) =~= Seq::<Word>::empty() + words(
                entries,
                from,
                read.rest.cursor.position as int,
            ));
        }
    }
}

/// The tree of a product that goes on after `left` is spelled as `left` and
/// then as the entries that were consumed after it.
pub proof fn lemma_product_from_is_sound(start: Span, left: Ast, s: StreamView<()>)
    requires
        s.cursor.in_bounds(),
    ensures
        sound_after(spelling(left), s, product_from(start, left, s)),
    decreases s.remaining(), 1int,
{
    let entries = s.cursor.entries;
    let from = s.cursor.position as int;
    if let Some(op) = multiplicative(s.cursor) {
        let right = primary(s.next());
        lemma_primary_is_sound(s.next());
        lemma_primary_follows(s.next());
        if let Ok(operand) = right.tree {
            let middle = right.rest.cursor.position as int;
            let so_far = Ast::operation(start.merge(right.rest.prev_span), op, left, operand);
            let read = product_from(start, so_far, right.rest);
            lemma_product_from_is_sound(start, so_far, right.rest);
            lemma_product_from_follows(start, so_far, right.rest);
            let to = read.rest.cursor.position as int;
            lemma_words_join(entries, from, from + 1, middle);
            lemma_words_join(entries, from, middle, to);
            assert(words(entries, from, from + 1) =~= seq![Word::Sign(sign(op))]);
            assert(spelling(operand) =~= words(entries, from + 1, middle));
            if let Ok(tree) = read.tree {
                assert(spelling(tree) =~= spelling(left) + words(entries, from, to));
            }
        }
    } else {
        assert(spelling(left) + words(entries, from, from) =~= spelling(left));
    }
}

/// The tree of a sum is spelled as the entries that were consumed for it.
pub proof fn lemma_sum_is_sound(s: StreamView<()>)
    requires
        s.cursor.in_bounds(),
    ensures
        sound(s, sum(s)),
    decreases s.remaining(), 4int,
{
    lemma_product_is_sound(s);
    lemma_product_follows(s);
    let first = product(s);
    if let Ok(left) = first.tree {
        let entries = s.cursor.entries;
        let from = s.cursor.position as int;
        let middle = first.rest.cursor.position as int;
        let read = sum_from(s.span(), left, first.rest);
        lemma_sum_from_is_sound(s.span(), left, first.rest);
        lemma_sum_from_follows(s.span(), left, first.rest);
        lemma_words_join(entries, from, middle, read.rest.cursor.position as int);
        if let Ok(tree) = read.tree {
            assert(spelling(left) =~= words(entries, from, middle));
            assert(spelling(tree) =~= Seq::<Word>::empty() + words(
                entries,
                from,
                read.rest.cursor.position as int,
            ));
        }
    }
}

/// The tree of a sum that goes on after `left` is spelled as `left` and then
/// as the entries that were consumed after it.
pub proof fn lemma_sum_from_is_sound(start: Span, left: Ast, s: StreamView<()>)
    requires
        s.cursor.in_bounds(),
    ensures
        sound_after(spelling(left), s, sum_from(start, left, s)),
    decreases s.remaining(), 3int,
{
    let entries = s.cursor.entries;
    let from = s.cursor.position as int;
    if let Some(op) = additive(s.cursor) {
        let right = product(s.next());
        lemma_product_is_sound(s.next());
        lemma_product_follows(s.next());
        if let Ok(operand) = right.tree {
            let middle = right.rest.cursor.position as int;
            let so_far = Ast::operation(start.merge(right.rest.prev_span), op, left, operand);
            let read = sum_from(start, so_far, right.rest);
            lemma_sum_from_is_sound(start, so_far, right.rest);
            lemma_sum_from_follows(start, so_far, right.rest);
            let to = read.rest.cursor.position as int;
            lemma_words_join(entries, from, from + 1, middle);
            lemma_words_join(entries, from, middle, to);
            assert(words(entries, from, from + 1) =~= seq![Word::Sign(sign(op))]);
            assert(spelling(operand) =~= words(entries, from + 1, middle));
            if let Ok(tree) = read.tree {
                assert(spelling(tree) =~= spelling(left) + words(entries, from, to));
            }
        }
    } else {
        assert(spelling(left) + words(entries, from, from) =~= spelling(left));
    }
}

/// Whether the tree of `read`, if it is one, ranges from `start` to the
/// range that was consumed last.
pub open spec fn ranged(start: Span, read: Outcome) -> bool {
    read.tree matches Ok(tree) ==> tree.spec_span() == start.merge(read.rest.prev_span)
}

/// The tree of a primary expression ranges from the first entry that was
/// consumed for it to the last.
pub proof fn lemma_primary_is_ranged(s: StreamView<()>)
    ensures
        ranged(s.span(), primary(s)),
{
}

/// The tree of a product ranges from the first entry that was consumed for
/// it to the last.
pub proof fn lemma_product_is_ranged(s: StreamView<()>)
    requires
        s.cursor.in_bounds(),
    ensures
        ranged(s.span(), product(s)),
{
    lemma_primary_is_ranged(s);
    lemma_primary_follows(s);
    if let Ok(left) = primary(s).tree {
        lemma_product_from_is_ranged(s.span(), left, primary(s).rest);
    }
}

/// The tree of a product that goes on after `left` is `left` where nothing
/// more was consumed, and else ranges from `start` to the last entry that
/// was consumed.
pub proof fn lemma_product_from_is_ranged(start: Span, left: Ast, s: StreamView<()>)
    requires
        s.cursor.in_bounds(),
    ensures
        product_from(start, left, s) == (Outcome { tree: Ok(left), rest: s }) || ranged(
            start,
            product_from(start, left, s),
        ),
    decreases s.remaining(),
{
    if let Some(op) = multiplicative(s.cursor) {
        let right = primary(s.next());
        lemma_primary_follows(s.next());
        if let Ok(operand) = right.tree {
            lemma_product_from_is_ranged(
                start,
                Ast::operation(start.merge(right.rest.prev_span), op, left, operand),
                right.rest,
            );
        }
    }
}

/// The tree of a sum ranges from the first entry that was consumed for it to
/// the last.
pub proof fn lemma_sum_is_ranged(s: StreamView<()>)
    requires
        s.cursor.in_bounds(),
    ensures
        ranged(s.span(), sum(s)),
{
    lemma_product_is_ranged(s);
    lemma_product_follows(s);
    if let Ok(left) = product(s).tree {
        lemma_sum_from_is_ranged(s.span(), left, product(s).rest);
    }
}

/// The tree of a sum that goes on after `left` is `left` where nothing more
/// was consumed, and else ranges from `start` to the last entry that was
/// consumed.
pub proof fn lemma_sum_from_is_ranged(start: Span, left: Ast, s: StreamView<()>)
    requires
        s.cursor.in_bounds(),
    ensures
        sum_from(start, left, s) == (Outcome { tree: Ok(left), rest: s }) || ranged(
            start,
            sum_from(start, left, s),
        ),
    decreases s.remaining(),
{
    if let Some(op) = additive(s.cursor) {
        let right = product(s.next());
        lemma_product_follows(s.next());
        if let Ok(operand) = right.tree {
            lemma_sum_from_is_ranged(
                start,
                Ast::operation(start.merge(right.rest.prev_span), op, left, operand),
                right.rest,
            );
        }
    }
}

/// Whether `tree` is a primary expression: an integer, or a group around a
/// sum.
pub open spec fn is_primary(tree: Ast) -> bool
    decreases tree, 0int,
{
    match tree {
        Ast::Int { .. } => true,
        Ast::Group { expr, .. } => is_sum(*expr),
        Ast::Op { .. } => false,
    }
}

/// Whether `tree` is a product: a primary expression, or a product
/// multiplied or divided by a primary expression.
pub open spec fn is_product(tree: Ast) -> bool
    decreases tree, 1int,
{
    match tree {
        Ast::Op { op, left, right, .. } => (op == Op::Mul || op == Op::Div) && is_product(*left)
            && is_primary(*right),
        _ => is_primary(tree),
    }
}

/// Whether `tree` is a sum: a product, or a sum to which a product is added
/// or from which one is subtracted.
pub open spec fn is_sum(tree: Ast) -> bool
    decreases tree, 2int,
{
    match tree {
        Ast::Op { op, left, right, .. } => if op == Op::Add || op == Op::Sub {
            is_sum(*left) && is_product(*right)
        } else {
            is_product(tree)
        },
        _ => is_product(tree),
    }
}

/// The number of entries that spell `tree`.
pub open spec fn length(tree: Ast) -> int {
    spelling(tree).len() as int
}

/// `tree` with the ranges that it gets when it is read from `entries` at
/// `from`: an integer has the range of its entry, a group and an operation
/// range from their first entry to their last.
pub open spec fn placed(tree: Ast, entries: Seq<Entry>, from: int) -> Ast
    decreases tree,
{
    let whole = entries[from].spec_span().merge(entries[from + length(tree) - 1].spec_span());
    match tree {
        Ast::Int { val, .. } => Ast::Int { span: entries[from].spec_span(), val },
        Ast::Op { op, left, right, .. } => Ast::operation(
            whole,
            op,
            placed(*left, entries, from),
            placed(*right, entries, from + length(*left) + 1),
        ),
        Ast::Group { expr, .. } => Ast::group(whole, placed(*expr, entries, from + 1)),
    }
}

/// The state of a stream that was in state `s` after `n` entries were
/// consumed one by one.
pub open spec fn after(s: StreamView<()>, n: int) -> StreamView<()> {
    if n <= 0 {
        s
    } else {
        StreamView {
            cursor: CursorView { position: (s.cursor.position + n) as nat, ..s.cursor },
            prev_span: s.cursor.entries[s.cursor.position + n - 1].spec_span(),
            ..s
        }
    }
}

/// Whether the entries at the position of `s` spell `tree`.
pub open spec fn spelled_at(tree: Ast, s: StreamView<()>) -> bool {
    &&& s.cursor.position + length(tree) <= s.cursor.entries.len()
    &&& words(s.cursor.entries, s.cursor.position as int, s.cursor.position + length(tree))
        == spelling(tree)
}

/// Whether the tree of `read` is `tree`, placed where `s` stands, and the
/// stream is left behind the entries that spell it.
pub open spec fn reads(tree: Ast, s: StreamView<()>, read: Outcome) -> bool {
    read == (Outcome {
        tree: Ok(placed(tree, s.cursor.entries, s.cursor.position as int)),
        rest: after(s, length(tree)),
    })
}

proof fn lemma_after(s: StreamView<()>, n: int, m: int)
    requires
        0 <= n,
        0 <= m,
        s.cursor.position + n + m <= s.cursor.entries.len(),
    ensures
        after(after(s, n), m) == after(s, n + m),
        after(s, n).cursor.in_bounds(),
        after(s, n).follows(s),
        m > 0 ==> after(s, n).next() == after(s, n + 1),
        m > 0 ==> !after(s, n).eof() && after(s, n).cursor.entry() == s.cursor.entries[
            s.cursor.position + n
        ],
{
}

proof fn lemma_spelling_is_not_empty(tree: Ast)
    ensures
        length(tree) >= 1,
    decreases tree,
{
    match tree {
        Ast::Int { .. } => {},
        Ast::Op { left, right, .. } => {
            lemma_spelling_is_not_empty(*left);
        },
        Ast::Group { expr, .. } => {},
    }
}

/// Where entries spell an operation, they spell its left operand, then say
/// its sign, then spell its right operand.
proof fn lemma_operation_spelled(tree: Ast, s: StreamView<()>)
    requires
        tree is Op,
        spelled_at(tree, s),
    ensures
        spelled_at(*tree->left, s),
        word(s.cursor.entries[s.cursor.position + length(*tree->left)]) == Word::Sign(
            sign(tree->op),
        ),
        spelled_at(*tree->right, after(s, length(*tree->left) + 1)),
        length(tree) == length(*tree->left) + 1 + length(*tree->right),
{
    let entries = s.cursor.entries;
    let from = s.cursor.position as int;
    let left = spelling(*tree->left);
    let right = spelling(*tree->right);
    let all = words(entries, from, from + length(tree));
    lemma_spelling_is_not_empty(*tree->left);
    lemma_spelling_is_not_empty(*tree->right);
    assert(all == left + seq![Word::Sign(sign(tree->op))] + right);
    assert(words(entries, from, from + left.len()) =~= left) by {
        assert forall|i: int| 0 <= i < left.len() implies words(entries, from, from + left.len())[i]
            == left[i] by {
            assert(all[i] == left[i]);
        }
    }
    assert(all[left.len() as int] == Word::Sign(sign(tree->op)));
    let start = from + left.len() + 1;
    assert(words(entries, start, start + right.len()) =~= right) by {
        assert forall|i: int| 0 <= i < right.len() implies words(
            entries,
            start,
            start + right.len(),
        )[i] == right[i] by {
            assert(all[left.len() as int + 1 + i] == right[i]);
        }
    }
}

/// Where entries spell a group, they say `(`, spell what the group holds,
/// and say `)`.
proof fn lemma_group_spelled(tree: Ast, s: StreamView<()>)
    requires
        tree is Group,
        spelled_at(tree, s),
    ensures
        word(s.cursor.entries[s.cursor.position as int]) == Word::Sign('('),
        spelled_at(*tree->expr, after(s, 1)),
        word(s.cursor.entries[s.cursor.position + length(*tree->expr) + 1]) == Word::Sign(')'),
        length(tree) == length(*tree->expr) + 2,
{
    let entries = s.cursor.entries;
    let from = s.cursor.position as int;
    let inner = spelling(*tree->expr);
    let all = words(entries, from, from + length(tree));
    assert(all == seq![Word::Sign('(')] + inner + seq![Word::Sign(')')]);
    assert(all[0] == Word::Sign('('));
    assert(all[inner.len() as int + 1] == Word::Sign(')'));
    assert(words(entries, from + 1, from + 1 + inner.len()) =~= inner) by {
        assert forall|i: int| 0 <= i < inner.len() implies words(
            entries,
            from + 1,
            from + 1 + inner.len(),
        )[i] == inner[i] by {
            assert(all[1 + i] == inner[i]);
        }
    }
}

/// A primary expression is read from the entries that spell it.
pub proof fn lemma_primary_is_complete(tree: Ast, s: StreamView<()>)
    requires
        is_primary(tree),
        spelled_at(tree, s),
    ensures
        reads(tree, s, primary(s)),
    decreases tree, 0int,
{
    let entries = s.cursor.entries;
    let from = s.cursor.position as int;
    match tree {
        Ast::Int { val, .. } => {
            assert(words(entries, from, from + 1)[0] == Word::Number(val));
            lemma_after(s, 0, 1);
        },
        Ast::Group { expr, .. } => {
            lemma_group_spelled(tree, s);
            lemma_spelling_is_not_empty(*expr);
            lemma_after(s, 0, 1);
            lemma_after(s, 1, length(*expr));
            lemma_after(s, 1 + length(*expr), 1);
            lemma_sum_is_complete(*expr, after(s, 1));
            assert(placed(*expr, after(s, 1).cursor.entries, after(s, 1).cursor.position as int)
                == placed(*expr, entries, from + 1));
        },
        Ast::Op { .. } => {},
    }
}

/// Reading a product comes to going on after the product that the entries
/// spell.
proof fn lemma_product_goes_on(tree: Ast, s: StreamView<()>)
    requires
        is_product(tree),
        spelled_at(tree, s),
    ensures
        product(s) == product_from(
            s.span(),
            placed(tree, s.cursor.entries, s.cursor.position as int),
            after(s, length(tree)),
        ),
    decreases tree, 1int,
{
    let entries = s.cursor.entries;
    let from = s.cursor.position as int;
    lemma_spelling_is_not_empty(tree);
    match tree {
        Ast::Op { op, left, right, .. } => {
            lemma_operation_spelled(tree, s);
            lemma_spelling_is_not_empty(*left);
            lemma_spelling_is_not_empty(*right);
            lemma_product_goes_on(*left, s);
            let middle = after(s, length(*left));
            lemma_after(s, length(*left), 1);
            lemma_after(s, length(*left) + 1, length(*right));
            lemma_after(s, 0, 1);
            lemma_after(s, length(tree), 0);
            assert(multiplicative(middle.cursor) == Some(op));
            lemma_primary_is_complete(*right, middle.next());
        },
        _ => {
            lemma_primary_is_complete(tree, s);
            lemma_after(s, length(tree), 0);
        },
    }
}

/// A product is read from the entries that spell it, where no `*` and no `/`
/// comes after them.
pub proof fn lemma_product_is_complete(tree: Ast, s: StreamView<()>)
    requires
        is_product(tree),
        spelled_at(tree, s),
        multiplicative(after(s, length(tree)).cursor) is None,
    ensures
        reads(tree, s, product(s)),
    decreases tree, 2int,
{
    lemma_product_goes_on(tree, s);
}

/// Reading a sum comes to going on after the sum that the entries spell.
proof fn lemma_sum_goes_on(tree: Ast, s: StreamView<()>)
    requires
        is_sum(tree),
        spelled_at(tree, s),
        multiplicative(after(s, length(tree)).cursor) is None,
    ensures
        sum(s) == sum_from(
            s.span(),
            placed(tree, s.cursor.entries, s.cursor.position as int),
            after(s, length(tree)),
        ),
    decreases tree, 3int,
{
    let entries = s.cursor.entries;
    let from = s.cursor.position as int;
    lemma_spelling_is_not_empty(tree);
    if tree is Op && (tree->op == Op::Add || tree->op == Op::Sub) {
        let left = *tree->left;
        let right = *tree->right;
        lemma_operation_spelled(tree, s);
        lemma_spelling_is_not_empty(left);
        lemma_spelling_is_not_empty(right);
        let middle = after(s, length(left));
        lemma_after(s, length(left), 1);
        lemma_after(s, length(left) + 1, length(right));
        lemma_after(s, 0, 1);
        lemma_after(s, length(tree), 0);
        assert(additive(middle.cursor) == Some(tree->op));
        assert(multiplicative(middle.cursor) is None);
        lemma_sum_goes_on(left, s);
        assert(after(middle.next(), length(right)) == after(s, length(tree)));
        lemma_product_is_complete(right, middle.next());
    } else {
        lemma_product_is_complete(tree, s);
        lemma_after(s, length(tree), 0);
    }
}

/// A sum is read from the entries that spell it, where none of `+ - * /`
/// comes after them: its tree is the sum itself, placed where it was read,
/// and the stream is left behind its last entry.
pub proof fn lemma_sum_is_complete(tree: Ast, s: StreamView<()>)
    requires
        is_sum(tree),
        spelled_at(tree, s),
        additive(after(s, length(tree)).cursor) is None,
        multiplicative(after(s, length(tree)).cursor) is None,
    ensures
        reads(tree, s, sum(s)),
    decreases tree, 4int,
{
    lemma_sum_goes_on(tree, s);
}

} // verus!
