//! The calculator's front end: a lexer for arithmetic queries and the
//! shunting-yard conversion to reverse Polish notation.
//!
//! A query is only taken as arithmetic when it holds nothing but digits,
//! `+ - * / % ^ ( )`, spaces and decimal points, and at least one operator.
//! Numbers stay as their literal text here; turning them into values and
//! evaluating the RPN is floating-point work done by the caller.

use vstd::prelude::*;
use crate::text::{chars_of, slice_chars, string_of};

verus! {

/// A token of an arithmetic query.
#[derive(Debug, Clone, PartialEq)]
pub enum CalcToken {
    /// A number literal: digits with at most one decimal point, not a lone
    /// point.
    Num(String),
    /// A binary operator; in RPN output, `n` stands for unary minus.
    Op(char),
    LParen,
    RParen,
}

pub enum TokView {
    Num(Seq<char>),
    Op(char),
    LParen,
    RParen,
}

impl View for CalcToken {
    type V = TokView;

    open spec fn view(&self) -> TokView {
        match self {
            CalcToken::Num(s) => TokView::Num(s@),
            CalcToken::Op(c) => TokView::Op(*c),
            CalcToken::LParen => TokView::LParen,
            CalcToken::RParen => TokView::RParen,
        }
    }
}

pub open spec fn toks_view(v: Seq<CalcToken>) -> Seq<TokView> {
    v.map_values(|t: CalcToken| t@)
}

pub open spec fn is_num_char(c: char) -> bool {
    ('0' <= c && c <= '9') || c == '.'
}

pub open spec fn is_op_char(c: char) -> bool {
    c == '+' || c == '-' || c == '*' || c == '/' || c == '%' || c == '^'
}

/// End of the run of digits and points starting at `i`.
pub open spec fn run_end(s: Seq<char>, i: int) -> int
    decreases s.len() - i,
{
    if 0 <= i < s.len() && is_num_char(s[i]) {
        run_end(s, i + 1)
    } else {
        i
    }
}

pub open spec fn count_dots(r: Seq<char>) -> nat
    decreases r.len(),
{
    if r.len() == 0 {
        0
    } else {
        count_dots(r.drop_last()) + if r.last() == '.' {
            1nat
        } else {
            0nat
        }
    }
}

/// Tokens of `s` from position `i`; `None` on a character outside the
/// whitelist, a number with two points or a lone point.
pub open spec fn tokens_from(s: Seq<char>, i: int) -> Option<Seq<TokView>>
    decreases s.len() - i, 1int,
{
    if i < 0 || i >= s.len() {
        Some(Seq::empty())
    } else {
        let c = s[i];
        if c == ' ' || c == '\t' {
            tokens_from(s, i + 1)
        } else if is_num_char(c) {
            let e = run_end(s, i);
            let r = s.subrange(i, e);
            if count_dots(r) > 1 || r == seq!['.'] {
                None
            } else {
                match tokens_from_after(s, i, e) {
                    Some(t) => Some(seq![TokView::Num(r)] + t),
                    None => None,
                }
            }
        } else {
            let t = if is_op_char(c) {
                Some(TokView::Op(c))
            } else if c == '(' {
                Some(TokView::LParen)
            } else if c == ')' {
                Some(TokView::RParen)
            } else {
                None
            };
            match t {
                Some(tok) => match tokens_from(s, i + 1) {
                    Some(rest) => Some(seq![tok] + rest),
                    None => None,
                },
                None => None,
            }
        }
    }
}

/// Continues after a number that ran from `i` to `e`.
pub open spec fn tokens_from_after(s: Seq<char>, i: int, e: int) -> Option<Seq<TokView>>
    decreases s.len() - i, 0int,
{
    if i < e <= s.len() {
        tokens_from(s, e)
    } else {
        None
    }
}

/// What `tokenize` answers: the tokens, or `None` when the text is not
/// made of whitelisted pieces or holds no token at all.
pub open spec fn spec_tokenize(s: Seq<char>) -> Option<Seq<TokView>> {
    match tokens_from(s, 0) {
        Some(t) => if t.len() > 0 {
            Some(t)
        } else {
            None
        },
        None => None,
    }
}

proof fn lemma_run_end(s: Seq<char>, i: int)
    requires
        0 <= i <= s.len(),
    ensures
        i <= run_end(s, i) <= s.len(),
        forall|k: int| i <= k < run_end(s, i) ==> is_num_char(#[trigger] s[k]),
        run_end(s, i) < s.len() ==> !is_num_char(s[run_end(s, i)]),
    decreases s.len() - i,
{
    if i < s.len() && is_num_char(s[i]) {
        lemma_run_end(s, i + 1);
    }
}

/// Splits an arithmetic query into tokens.
pub fn tokenize(input: &str) -> (r: Option<Vec<CalcToken>>)
    ensures
        match r {
            Some(v) => spec_tokenize(input@) == Some(toks_view(v@)),
            None => spec_tokenize(input@) is None,
        },
{
    let s = chars_of(input);
    let mut tokens: Vec<CalcToken> = Vec::new();
    let mut i: usize = 0;
    while i < s.len()
        invariant
            s@ == input@,
            i <= s@.len(),
            tokens_from(s@, 0) == match tokens_from(s@, i as int) {
                Some(t) => Some(toks_view(tokens@) + t),
                None => None::<Seq<TokView>>,
            },
        decreases s@.len() - i,
    {
        let c = s[i];
        if c == ' ' || c == '\t' {
            i = i + 1;
        } else if ('0' <= c && c <= '9') || c == '.' {
            let mut j: usize = i;
            let mut dots: usize = 0;
            while j < s.len() && (('0' <= s[j] && s[j] <= '9') || s[j] == '.')
                invariant
                    s@ == input@,
                    i <= j <= s@.len(),
                    i < s@.len(),
                    is_num_char(s@[i as int]),
                    tokens_from(s@, 0) == match tokens_from(s@, i as int) {
                        Some(t) => Some(toks_view(tokens@) + t),
                        None => None::<Seq<TokView>>,
                    },
                    forall|k: int| i <= k < j ==> is_num_char(#[trigger] s@[k]),
                    run_end(s@, i as int) == run_end(s@, j as int),
                    dots == count_dots(s@.subrange(i as int, j as int)),
                    dots <= 1,
                decreases s@.len() - j,
            {
                assert(s@.subrange(i as int, j + 1).drop_last() == s@.subrange(i as int, j as int));
                if s[j] == '.' {
                    if dots == 1 {
                        proof {
                            lemma_run_end(s@, j + 1);
                            lemma_count_dots_grows(s@, i as int, j + 1, run_end(s@, i as int));
                        }
                        return None;
                    }
                    dots = dots + 1;
                }
                j = j + 1;
            }
            proof {
                lemma_run_end(s@, j as int);
                lemma_run_end(s@, i as int);
                lemma_run_end(s@, i + 1);
                assert(run_end(s@, i as int) == j);
            }
            let num = slice_chars(&s, i, j);
            if num.len() == 1 && num[0] == '.' {
                assert(num@ =~= seq!['.']);
                return None;
            }
            assert(num@ != seq!['.']);
            assert(count_dots(num@) <= 1);
            assert(i < j);
            assert(tokens_from_after(s@, i as int, j as int) == tokens_from(s@, j as int));
            assert(is_num_char(s@[i as int]) && s@[i as int] != ' ' && s@[i as int] != '\t');
            assert(tokens_from(s@, i as int) == match tokens_from(s@, j as int) {
                Some(t) => Some(seq![TokView::Num(num@)] + t),
                None => None::<Seq<TokView>>,
            });
            tokens.push(CalcToken::Num(string_of(&num)));
            proof {
                assert(toks_view(tokens@) == toks_view(tokens@.drop_last()).push(TokView::Num(num@)));
                match tokens_from(s@, j as int) {
                    Some(t) => {
                        assert(toks_view(tokens@.drop_last()) + (seq![TokView::Num(num@)] + t) =~= toks_view(tokens@) + t);
                    },
                    None => {},
                }
            }
            i = j;
        } else {
            let tok = if c == '+' || c == '-' || c == '*' || c == '/' || c == '%' || c == '^' {
                CalcToken::Op(c)
            } else if c == '(' {
                CalcToken::LParen
            } else if c == ')' {
                CalcToken::RParen
            } else {
                return None;
            };
            let ghost tv = tok@;
            tokens.push(tok);
            proof {
                assert(toks_view(tokens@) == toks_view(tokens@.drop_last()).push(tv));
                match tokens_from(s@, i + 1) {
                    Some(t) => {
                        assert(toks_view(tokens@.drop_last()) + (seq![tv] + t) =~= toks_view(tokens@) + t);
                    },
                    None => {},
                }
            }
            i = i + 1;
        }
    }
    assert(toks_view(tokens@) + Seq::<TokView>::empty() == toks_view(tokens@));
    if tokens.len() == 0 {
        None
    } else {
        Some(tokens)
    }
}

proof fn lemma_count_dots_grows(s: Seq<char>, i: int, j: int, e: int)
    requires
        0 <= i <= j <= e <= s.len(),
    ensures
        count_dots(s.subrange(i, j)) <= count_dots(s.subrange(i, e)),
    decreases e - j,
{
    if j < e {
        lemma_count_dots_grows(s, i, j + 1, e);
        assert(s.subrange(i, j + 1).drop_last() == s.subrange(i, j));
    }
}

/// Whether the tokens hold an operator (a lone number, even in parentheses,
/// is an ordinary search, not arithmetic).
pub fn has_operator(tokens: &Vec<CalcToken>) -> (r: bool)
    ensures
        r == exists|k: int| 0 <= k < tokens@.len() && (#[trigger] tokens@[k])@ is Op,
{
    for k in 0..tokens.len()
        invariant
            forall|j: int| 0 <= j < k ==> !((#[trigger] tokens@[j])@ is Op),
    {
        match &tokens[k] {
            CalcToken::Op(_) => {
                return true;
            },
            _ => {},
        }
    }
    false
}

/// An entry of the operator stack.
#[derive(Debug, Clone, Copy, PartialEq, Eq, Structural)]
pub enum StackItem {
    Bin(char),
    Neg,
    LParen,
}

/// Precedence of unary minus: above every binary operator, right-associative.
pub const UNARY_PREC: u8 = 4;

pub open spec fn spec_op_spec(op: char) -> Option<(u8, bool)> {
    if op == '+' || op == '-' {
        Some((1u8, false))
    } else if op == '*' || op == '/' || op == '%' {
        Some((2u8, false))
    } else if op == '^' {
        Some((3u8, true))
    } else {
        None
    }
}

/// Precedence and right-associativity of a binary operator.
pub fn op_spec(op: char) -> (r: Option<(u8, bool)>)
    ensures
        r == spec_op_spec(op),
{
    match op {
        '+' | '-' => Some((1, false)),
        '*' | '/' | '%' => Some((2, false)),
        '^' => Some((3, true)),
        _ => None,
    }
}

/// Writes a stack entry to the output (unary minus as `n`).
pub open spec fn emit(out: Seq<TokView>, item: StackItem) -> Seq<TokView> {
    match item {
        StackItem::Bin(op) => out.push(TokView::Op(op)),
        StackItem::Neg => out.push(TokView::Op('n')),
        StackItem::LParen => out,
    }
}

/// Precedence of a stack entry other than a parenthesis.
pub open spec fn item_prec(item: StackItem) -> Option<u8> {
    match item {
        StackItem::Neg => Some(UNARY_PREC),
        StackItem::Bin(o) => match spec_op_spec(o) {
            Some(p) => Some(p.0),
            None => None,
        },
        StackItem::LParen => None,
    }
}

/// Pops to the output every entry above the topmost parenthesis that binds
/// at least as tightly as an incoming operator of precedence `prec`
/// (strictly tighter when it is right-associative).
pub open spec fn pop_tighter(out: Seq<TokView>, ops: Seq<StackItem>, prec: u8, right: bool) -> Option<
    (Seq<TokView>, Seq<StackItem>),
>
    decreases ops.len(),
{
    if ops.len() == 0 || ops.last() is LParen {
        Some((out, ops))
    } else {
        match item_prec(ops.last()) {
            None => None,
            Some(tp) => if tp > prec || (tp == prec && !right) {
                pop_tighter(emit(out, ops.last()), ops.drop_last(), prec, right)
            } else {
                Some((out, ops))
            },
        }
    }
}

/// Pops to the output everything above the topmost left parenthesis and
/// drops it; `None` when there is none.
pub open spec fn pop_to_paren(out: Seq<TokView>, ops: Seq<StackItem>) -> Option<(Seq<TokView>, Seq<StackItem>)>
    decreases ops.len(),
{
    if ops.len() == 0 {
        None
    } else if ops.last() is LParen {
        Some((out, ops.drop_last()))
    } else {
        pop_to_paren(emit(out, ops.last()), ops.drop_last())
    }
}

/// State of the conversion: output queue, operator stack, whether the last
/// token produced a value (so `+`/`-` next is binary) and open parentheses.
pub struct RpnState {
    pub out: Seq<TokView>,
    pub ops: Seq<StackItem>,
    pub prev_value: bool,
    pub depth: nat,
}

/// One token of the shunting-yard conversion.
pub open spec fn rpn_step(st: RpnState, tok: TokView) -> Option<RpnState> {
    match tok {
        TokView::Num(_) => Some(RpnState { out: st.out.push(tok), ops: st.ops, prev_value: true, depth: st.depth }),
        TokView::LParen => Some(
            RpnState { out: st.out, ops: st.ops.push(StackItem::LParen), prev_value: false, depth: st.depth + 1 },
        ),
        TokView::RParen => if st.depth == 0 {
            None
        } else {
            match pop_to_paren(st.out, st.ops) {
                Some(p) => Some(RpnState { out: p.0, ops: p.1, prev_value: true, depth: (st.depth - 1) as nat }),
                None => None,
            }
        },
        TokView::Op(op) => {
            let unary = !st.prev_value && (op == '+' || op == '-');
            let ps = if unary {
                Some((UNARY_PREC, true))
            } else {
                spec_op_spec(op)
            };
            match ps {
                None => None,
                Some(ps) => match pop_tighter(st.out, st.ops, ps.0, ps.1) {
                    Some(p) => Some(
                        RpnState {
                            out: p.0,
                            ops: p.1.push(
                                if unary {
                                    StackItem::Neg
                                } else {
                                    StackItem::Bin(op)
                                },
                            ),
                            prev_value: false,
                            depth: st.depth,
                        },
                    ),
                    None => None,
                },
            }
        },
    }
}

/// The conversion state after the tokens, `None` once it failed.
pub open spec fn rpn_run(tokens: Seq<TokView>) -> Option<RpnState>
    decreases tokens.len(),
{
    if tokens.len() == 0 {
        Some(RpnState { out: Seq::empty(), ops: Seq::empty(), prev_value: false, depth: 0 })
    } else {
        match rpn_run(tokens.drop_last()) {
            Some(st) => rpn_step(st, tokens.last()),
            None => None,
        }
    }
}

/// Pops the rest of the stack to the output; `None` on an unclosed
/// parenthesis.
pub open spec fn flush(out: Seq<TokView>, ops: Seq<StackItem>) -> Option<Seq<TokView>>
    decreases ops.len(),
{
    if ops.len() == 0 {
        Some(out)
    } else if ops.last() is LParen {
        None
    } else {
        flush(emit(out, ops.last()), ops.drop_last())
    }
}

/// What `to_rpn` answers: the RPN of the tokens by the shunting-yard
/// algorithm, or `None` on unbalanced parentheses, an unknown operator or an
/// empty output.
pub open spec fn spec_to_rpn(tokens: Seq<TokView>) -> Option<Seq<TokView>> {
    match rpn_run(tokens) {
        Some(st) => if st.depth != 0 {
            None
        } else {
            match flush(st.out, st.ops) {
                Some(o) => if o.len() > 0 {
                    Some(o)
                } else {
                    None
                },
                None => None,
            }
        },
        None => None,
    }
}

fn emit_exec(out: &mut Vec<CalcToken>, item: StackItem)
    ensures
        toks_view(final(out)@) == emit(toks_view(old(out)@), item),
{
    match item {
        StackItem::Bin(op) => out.push(CalcToken::Op(op)),
        StackItem::Neg => out.push(CalcToken::Op('n')),
        StackItem::LParen => {},
    }
    assert(toks_view(out@) =~= emit(toks_view(old(out)@), item));
}

/// Converts infix tokens to reverse Polish notation (shunting yard); a `+`
/// or `-` at the start, after an operator or after `(` is unary.
pub fn to_rpn(tokens: Vec<CalcToken>) -> (r: Option<Vec<CalcToken>>)
    ensures
        match r {
            Some(v) => spec_to_rpn(toks_view(tokens@)) == Some(toks_view(v@)),
            None => spec_to_rpn(toks_view(tokens@)) is None,
        },
{
    let ghost tv = toks_view(tokens@);
    let mut out: Vec<CalcToken> = Vec::new();
    let mut ops: Vec<StackItem> = Vec::new();
    let mut prev_value = false;
    let mut depth: usize = 0;
    let mut k: usize = 0;
    assert(tv.take(0) =~= Seq::<TokView>::empty());
    assert(toks_view(out@) =~= Seq::<TokView>::empty());
    while k < tokens.len()
        invariant
            tv == toks_view(tokens@),
            k <= tokens@.len(),
            depth <= k,
            rpn_run(tv.take(k as int)) == Some(
                RpnState { out: toks_view(out@), ops: ops@, prev_value, depth: depth as nat },
            ),
        decreases tokens@.len() - k,
    {
        let ghost st = RpnState { out: toks_view(out@), ops: ops@, prev_value, depth: depth as nat };
        assert(tv.take(k + 1).drop_last() == tv.take(k as int));
        assert(tv.take(k + 1).last() == tokens@[k as int]@);
        match &tokens[k] {
            CalcToken::Num(n) => {
                out.push(CalcToken::Num(n.clone()));
                assert(toks_view(out@) =~= st.out.push(tokens@[k as int]@));
                prev_value = true;
            },
            CalcToken::LParen => {
                depth = depth + 1;
                ops.push(StackItem::LParen);
                prev_value = false;
            },
            CalcToken::RParen => {
                if depth == 0 {
                    proof {
                        lemma_run_none_extends(tv, k as int + 1);
                    }
                    return None;
                }
                depth = depth - 1;
                loop
                    invariant_except_break
                        tv == toks_view(tokens@),
                        k < tokens@.len(),
                        tv.take(k + 1).drop_last() == tv.take(k as int),
                        tv.take(k + 1).last() == TokView::RParen,
                        rpn_run(tv.take(k as int)) == Some(st),
                        st.depth > 0,
                        pop_to_paren(st.out, st.ops) == pop_to_paren(toks_view(out@), ops@),
                    ensures
                        pop_to_paren(st.out, st.ops) == Some((toks_view(out@), ops@)),
                    decreases ops@.len(),
                {
                    match ops.pop() {
                        None => {
                            proof {
                                lemma_run_none_extends(tv, k as int + 1);
                            }
                            return None;
                        },
                        Some(StackItem::LParen) => {
                            break;
                        },
                        Some(other) => {
                            emit_exec(&mut out, other);
                        },
                    }
                }
                prev_value = true;
            },
            CalcToken::Op(op) => {
                let op = *op;
                let unary = !prev_value && (op == '+' || op == '-');
                let item = if unary {
                    StackItem::Neg
                } else {
                    StackItem::Bin(op)
                };
                let (prec, right_assoc) = if unary {
                    (UNARY_PREC, true)
                } else {
                    match op_spec(op) {
                        Some(p) => p,
                        None => {
                            proof {
                                lemma_run_none_extends(tv, k as int + 1);
                            }
                            return None;
                        },
                    }
                };
                loop
                    invariant_except_break
                        tv == toks_view(tokens@),
                        k < tokens@.len(),
                        tv.take(k + 1).drop_last() == tv.take(k as int),
                        tv.take(k + 1).last() == TokView::Op(op),
                        rpn_run(tv.take(k as int)) == Some(st),
                        unary == (!st.prev_value && (op == '+' || op == '-')),
                        (prec, right_assoc) == (if unary {
                            (UNARY_PREC, true)
                        } else {
                            spec_op_spec(op)->0
                        }),
                        !unary ==> spec_op_spec(op) is Some,
                        pop_tighter(st.out, st.ops, prec, right_assoc) == pop_tighter(toks_view(out@), ops@, prec, right_assoc),
                    ensures
                        pop_tighter(st.out, st.ops, prec, right_assoc) == Some((toks_view(out@), ops@)),
                    decreases ops@.len(),
                {
                    if ops.len() == 0 {
                        break;
                    }
                    let top = ops[ops.len() - 1];
                    assert(top == ops@.last());
                    let top_prec: u8 = match top {
                        StackItem::LParen => {
                            break;
                        },
                        StackItem::Neg => UNARY_PREC,
                        StackItem::Bin(o) => match op_spec(o) {
                            Some(p) => p.0,
                            None => {
                                proof {
                                    lemma_run_none_extends(tv, k as int + 1);
                                }
                                return None;
                            },
                        },
                    };
                    if top_prec > prec || (top_prec == prec && !right_assoc) {
                        let popped = ops.pop();
                        assert(popped == Some(top));
                        emit_exec(&mut out, top);
                    } else {
                        break;
                    }
                }
                ops.push(item);
                prev_value = false;
            },
        }
        k = k + 1;
    }
    assert(tv.take(tokens@.len() as int) == tv);
    if depth != 0 {
        return None;
    }
    let ghost st_out = toks_view(out@);
    let ghost st_ops = ops@;
    loop
        invariant_except_break
            tv == toks_view(tokens@),
            rpn_run(tv) == Some(RpnState { out: st_out, ops: st_ops, prev_value, depth: 0 }),
            flush(st_out, st_ops) == flush(toks_view(out@), ops@),
        ensures
            flush(st_out, st_ops) == Some(toks_view(out@)),
        decreases ops@.len(),
    {
        let ghost pre = ops@;
        match ops.pop() {
            None => {
                break;
            },
            Some(StackItem::LParen) => {
                assert(pre.last() is LParen);
                assert(flush(toks_view(out@), pre) is None);
                return None;
            },
            Some(item) => {
                emit_exec(&mut out, item);
            },
        }
    }
    if out.len() == 0 {
        None
    } else {
        Some(out)
    }
}

/// Once the conversion failed, more tokens do not revive it.
proof fn lemma_run_none_extends(tv: Seq<TokView>, k: int)
    requires
        0 <= k <= tv.len(),
        rpn_run(tv.take(k)) is None,
    ensures
        rpn_run(tv) is None,
    decreases tv.len() - k,
{
    if k < tv.len() {
        assert(tv.take(k + 1).drop_last() == tv.take(k));
        lemma_run_none_extends(tv, k + 1);
    } else {
        assert(tv.take(k) == tv);
    }
}

/// The number literals among the tokens, in order.
pub open spec fn nums(s: Seq<TokView>) -> Seq<Seq<char>>
    decreases s.len(),
{
    if s.len() == 0 {
        Seq::empty()
    } else {
        let rest = nums(s.drop_last());
        match s.last() {
            TokView::Num(n) => rest.push(n),
            _ => rest,
        }
    }
}

/// Left parentheses minus right parentheses.
pub open spec fn paren_balance(s: Seq<TokView>) -> int
    decreases s.len(),
{
    if s.len() == 0 {
        0
    } else {
        paren_balance(s.drop_last()) + match s.last() {
            TokView::LParen => 1int,
            TokView::RParen => -1int,
            _ => 0int,
        }
    }
}

pub open spec fn no_parens(s: Seq<TokView>) -> bool {
    forall|k: int| 0 <= k < s.len() ==> !(#[trigger] s[k] is LParen) && !(s[k] is RParen)
}

proof fn lemma_emit(out: Seq<TokView>, item: StackItem)
    ensures
        nums(emit(out, item)) == nums(out),
        no_parens(out) ==> no_parens(emit(out, item)),
{
    let e = emit(out, item);
    if e.len() > out.len() {
        assert(e.drop_last() == out);
    }
}

proof fn lemma_pop_tighter(out: Seq<TokView>, ops: Seq<StackItem>, prec: u8, right: bool)
    ensures
        pop_tighter(out, ops, prec, right) matches Some(p) ==> nums(p.0) == nums(out) && (no_parens(out)
            ==> no_parens(p.0)) && (forall|k: int| 0 <= k < p.1.len() ==> #[trigger] p.1[k] == ops[k])
            && p.1.len() <= ops.len(),
    decreases ops.len(),
{
    if ops.len() > 0 && !(ops.last() is LParen) {
        lemma_emit(out, ops.last());
        lemma_pop_tighter(emit(out, ops.last()), ops.drop_last(), prec, right);
    }
}

proof fn lemma_pop_to_paren(out: Seq<TokView>, ops: Seq<StackItem>)
    ensures
        pop_to_paren(out, ops) matches Some(p) ==> nums(p.0) == nums(out) && (no_parens(out) ==> no_parens(
            p.0,
        )),
    decreases ops.len(),
{
    if ops.len() > 0 && !(ops.last() is LParen) {
        lemma_emit(out, ops.last());
        lemma_pop_to_paren(emit(out, ops.last()), ops.drop_last());
    }
}

proof fn lemma_flush(out: Seq<TokView>, ops: Seq<StackItem>)
    ensures
        flush(out, ops) matches Some(o) ==> nums(o) == nums(out) && (no_parens(out) ==> no_parens(o)),
    decreases ops.len(),
{
    if ops.len() > 0 && !(ops.last() is LParen) {
        lemma_emit(out, ops.last());
        lemma_flush(emit(out, ops.last()), ops.drop_last());
    }
}

proof fn lemma_run(tv: Seq<TokView>)
    ensures
        rpn_run(tv) matches Some(st) ==> no_parens(st.out) && nums(st.out) == nums(tv) && st.depth
            == paren_balance(tv),
        rpn_run(tv) is Some ==> forall|k: int| 0 <= k <= tv.len() ==> #[trigger] paren_balance(tv.take(k)) >= 0,
    decreases tv.len(),
{
    if tv.len() > 0 {
        let pre = tv.drop_last();
        lemma_run(pre);
        match rpn_run(pre) {
            Some(st) => {
                let tok = tv.last();
                lemma_pop_to_paren(st.out, st.ops);
                let unary = !st.prev_value && (tok matches TokView::Op(op) && (op == '+' || op == '-'));
                if let TokView::Op(op) = tok {
                    let ps = if unary {
                        Some((UNARY_PREC, true))
                    } else {
                        spec_op_spec(op)
                    };
                    if let Some(ps) = ps {
                        lemma_pop_tighter(st.out, st.ops, ps.0, ps.1);
                    }
                }
                if let TokView::Num(n) = tok {
                    assert(st.out.push(tok).drop_last() == st.out);
                }
                if rpn_run(tv) is Some {
                    assert forall|k: int| 0 <= k <= tv.len() implies #[trigger] paren_balance(tv.take(k)) >= 0 by {
                        if k < tv.len() {
                            assert(tv.take(k) == pre.take(k));
                        } else {
                            assert(tv.take(k) == tv);
                        }
                    }
                }
            },
            None => {},
        }
    } else {
        assert forall|k: int| 0 <= k <= tv.len() implies #[trigger] paren_balance(tv.take(k)) >= 0 by {
            assert(tv.take(k) == Seq::<TokView>::empty());
        }
    }
}

/// A successful conversion keeps every number, in its order, drops every
/// parenthesis, and only happens for balanced parentheses: no prefix closes
/// more than it opened, and the whole opens as many as it closes.
pub proof fn lemma_rpn_faithful(tokens: Seq<TokView>)
    ensures
        spec_to_rpn(tokens) matches Some(o) ==> {
            &&& nums(o) == nums(tokens)
            &&& no_parens(o)
            &&& paren_balance(tokens) == 0
            &&& forall|k: int| 0 <= k <= tokens.len() ==> #[trigger] paren_balance(tokens.take(k)) >= 0
        },
{
    lemma_run(tokens);
    if let Some(st) = rpn_run(tokens) {
        lemma_flush(st.out, st.ops);
    }
}

/// The binary operators: `+ - * / % ^`.
pub open spec fn is_binary_op(c: char) -> bool {
    c == '+' || c == '-' || c == '*' || c == '/' || c == '%' || c == '^'
}

/// Precedence of the binary operators on `a o1 b o2 c`: `^` binds tightest
/// and groups to the right (`a ^ b ^ c` is `a ^ (b ^ c)`); `* / %` bind
/// tighter than `+ -`; operators of one level group to the left. So the
/// second operator is applied first exactly when it is `^`, or one of
/// `* / %` after one of `+ -`.
pub proof fn lemma_binary_precedence(a: Seq<char>, o1: char, b: Seq<char>, o2: char, c: Seq<char>)
    requires
        is_binary_op(o1),
        is_binary_op(o2),
    ensures
        spec_to_rpn(seq![TokView::Num(a), TokView::Op(o1), TokView::Num(b), TokView::Op(o2), TokView::Num(c)])
            == Some(
            if o2 == '^' || ((o2 == '*' || o2 == '/' || o2 == '%') && (o1 == '+' || o1 == '-')) {
                seq![TokView::Num(a), TokView::Num(b), TokView::Num(c), TokView::Op(o2), TokView::Op(o1)]
            } else {
                seq![TokView::Num(a), TokView::Num(b), TokView::Op(o1), TokView::Num(c), TokView::Op(o2)]
            },
        ),
{
    let t = seq![TokView::Num(a), TokView::Op(o1), TokView::Num(b), TokView::Op(o2), TokView::Num(c)];
    assert(t.drop_last().drop_last().drop_last().drop_last().drop_last() =~= Seq::<TokView>::empty());
    assert(t.drop_last().drop_last().drop_last().drop_last() =~= seq![TokView::Num(a)]);
    assert(t.drop_last().drop_last().drop_last() =~= seq![TokView::Num(a), TokView::Op(o1)]);
    assert(t.drop_last().drop_last() =~= seq![TokView::Num(a), TokView::Op(o1), TokView::Num(b)]);
    assert(t.drop_last() =~= seq![TokView::Num(a), TokView::Op(o1), TokView::Num(b), TokView::Op(o2)]);
    reveal_with_fuel(rpn_run, 6);
    reveal_with_fuel(pop_tighter, 3);
    reveal_with_fuel(flush, 3);
    let s1 = rpn_run(t.drop_last().drop_last().drop_last()).unwrap();
    assert(s1.out =~= seq![TokView::Num(a)]);
    assert(s1.ops =~= seq![StackItem::Bin(o1)]);
    let s2 = rpn_run(t.drop_last()).unwrap();
    let o = spec_to_rpn(t).unwrap();
    if o2 == '^' || ((o2 == '*' || o2 == '/' || o2 == '%') && (o1 == '+' || o1 == '-')) {
        assert(s2.ops =~= seq![StackItem::Bin(o1), StackItem::Bin(o2)]);
        assert(o =~= seq![TokView::Num(a), TokView::Num(b), TokView::Num(c), TokView::Op(o2), TokView::Op(o1)]);
    } else {
        assert(s2.ops =~= seq![StackItem::Bin(o2)]);
        assert(o =~= seq![TokView::Num(a), TokView::Num(b), TokView::Op(o1), TokView::Num(c), TokView::Op(o2)]);
    }
}

/// A leading minus negates the first number only: it binds tighter than any
/// binary operator, so `- a o b` is `(-a) o b`.
pub proof fn lemma_leading_minus(a: Seq<char>, o: char, b: Seq<char>)
    requires
        is_binary_op(o),
    ensures
        spec_to_rpn(seq![TokView::Op('-'), TokView::Num(a), TokView::Op(o), TokView::Num(b)]) == Some(
            seq![TokView::Num(a), TokView::Op('n'), TokView::Num(b), TokView::Op(o)],
        ),
{
    let t = seq![TokView::Op('-'), TokView::Num(a), TokView::Op(o), TokView::Num(b)];
    assert(t.drop_last().drop_last().drop_last().drop_last() =~= Seq::<TokView>::empty());
    assert(t.drop_last().drop_last().drop_last() =~= seq![TokView::Op('-')]);
    assert(t.drop_last().drop_last() =~= seq![TokView::Op('-'), TokView::Num(a)]);
    assert(t.drop_last() =~= seq![TokView::Op('-'), TokView::Num(a), TokView::Op(o)]);
    reveal_with_fuel(rpn_run, 5);
    reveal_with_fuel(pop_tighter, 3);
    reveal_with_fuel(flush, 3);
    let s2 = rpn_run(t.drop_last()).unwrap();
    assert(s2.out =~= seq![TokView::Num(a), TokView::Op('n')]);
    assert(s2.ops =~= seq![StackItem::Bin(o)]);
    assert(spec_to_rpn(t).unwrap() =~= seq![TokView::Num(a), TokView::Op('n'), TokView::Num(b), TokView::Op(o)]);
}

/// A minus right after a binary operator negates the number after it:
/// `a o - b` is `a o (-b)`.
pub proof fn lemma_minus_after_operator(a: Seq<char>, o: char, b: Seq<char>)
    requires
        is_binary_op(o),
    ensures
        spec_to_rpn(seq![TokView::Num(a), TokView::Op(o), TokView::Op('-'), TokView::Num(b)]) == Some(
            seq![TokView::Num(a), TokView::Num(b), TokView::Op('n'), TokView::Op(o)],
        ),
{
    let t = seq![TokView::Num(a), TokView::Op(o), TokView::Op('-'), TokView::Num(b)];
    assert(t.drop_last().drop_last().drop_last().drop_last() =~= Seq::<TokView>::empty());
    assert(t.drop_last().drop_last().drop_last() =~= seq![TokView::Num(a)]);
    assert(t.drop_last().drop_last() =~= seq![TokView::Num(a), TokView::Op(o)]);
    assert(t.drop_last() =~= seq![TokView::Num(a), TokView::Op(o), TokView::Op('-')]);
    reveal_with_fuel(rpn_run, 5);
    reveal_with_fuel(pop_tighter, 3);
    reveal_with_fuel(flush, 3);
    let s2 = rpn_run(t.drop_last()).unwrap();
    assert(s2.ops =~= seq![StackItem::Bin(o), StackItem::Neg]);
    assert(spec_to_rpn(t).unwrap() =~= seq![TokView::Num(a), TokView::Num(b), TokView::Op('n'), TokView::Op(o)]);
}

/// Parentheses group first, whatever the operators: `a o1 (b o2 c)` applies
/// `o2` first.
pub proof fn lemma_parenthesised_right(a: Seq<char>, o1: char, b: Seq<char>, o2: char, c: Seq<char>)
    requires
        is_binary_op(o1),
        is_binary_op(o2),
    ensures
        spec_to_rpn(
            seq![
                TokView::Num(a), TokView::Op(o1), TokView::LParen, TokView::Num(b), TokView::Op(o2),
                TokView::Num(c), TokView::RParen,
            ],
        ) == Some(seq![TokView::Num(a), TokView::Num(b), TokView::Num(c), TokView::Op(o2), TokView::Op(o1)]),
{
    let t = seq![
        TokView::Num(a), TokView::Op(o1), TokView::LParen, TokView::Num(b), TokView::Op(o2),
        TokView::Num(c), TokView::RParen,
    ];
    assert(t.take(0) =~= Seq::<TokView>::empty());
    assert(t.take(1).drop_last() == t.take(0));
    assert(t.take(2).drop_last() == t.take(1));
    assert(t.take(3).drop_last() == t.take(2));
    assert(t.take(4).drop_last() == t.take(3));
    assert(t.take(5).drop_last() == t.take(4));
    assert(t.take(6).drop_last() == t.take(5));
    assert(t.take(7) == t);
    assert(t.drop_last() == t.take(6));
    reveal_with_fuel(rpn_run, 8);
    reveal_with_fuel(pop_tighter, 3);
    reveal_with_fuel(pop_to_paren, 3);
    reveal_with_fuel(flush, 3);
    let s5 = rpn_run(t.take(5)).unwrap();
    assert(s5.ops =~= seq![StackItem::Bin(o1), StackItem::LParen, StackItem::Bin(o2)]);
    let s7 = rpn_run(t).unwrap();
    assert(s7.ops =~= seq![StackItem::Bin(o1)]);
    assert(spec_to_rpn(t).unwrap() =~= seq![
        TokView::Num(a), TokView::Num(b), TokView::Num(c), TokView::Op(o2), TokView::Op(o1),
    ]);
}

} // verus!
