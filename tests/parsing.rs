use parsekit::{
    just, Error, Func, Input, Just, PResult, Parser, SeqParser, Simple, SimpleSpan, Span,
    SimpleModel, SpecResult, TokenSeq,
};

type Fail = Simple<char, SimpleSpan>;

fn tok<O: Copy>(c: char, give: O) -> Just<char, O, SimpleSpan, Fail> {
    just(c, give)
}

fn tokens(text: &str) -> Vec<(char, SimpleSpan)> {
    text.chars()
        .enumerate()
        .map(|(i, c)| (c, SimpleSpan::new(i, i + 1)))
        .collect()
}

fn check<I, O, S, E, P>(_: P)
where
    P: Parser<I, O, S, E>,
    I: Input + Copy,
    O: vstd::prelude::DeepView,
    S: Span + Copy,
    E: Error<I, S>,
{
}

struct Local;

impl Parser<(), (), (), ()> for Local {
    fn spec_parse(&self, tokens: TokenSeq<(), ()>) -> SpecResult<(), (), (), ()> {
        Ok((tokens, ((), ())))
    }

    fn parse<'a>(&self, tokens: &'a [((), ())]) -> PResult<'a, (), (), (), ()> {
        Ok((tokens, ((), ())))
    }
}

#[test]
fn test1() {
    check(Local.or(Local).delimited_by((), ()));
}

#[test]
fn unit_parser_between_unit_brackets() {
    let input = [((), ()), ((), ()), ((), ())];
    let r = Local.or(Local).delimited_by((), ()).parse(&input);
    let (rest, ((), ())) = r.unwrap();
    assert_eq!(rest.len(), 1);
}

#[test]
fn empty_span_is_identity() {
    let s = SimpleSpan::new(3, 7);
    assert_eq!(SimpleSpan::empty().merge(s), s);
    assert_eq!(s.merge(SimpleSpan::empty()), s);
    assert_eq!(Span::merge(<() as Span>::empty(), ()), ());
}

#[test]
fn merge_covers_both_spans() {
    let a = SimpleSpan::new(2, 4);
    let b = SimpleSpan::new(6, 9);
    assert_eq!(a.merge(b), SimpleSpan::new(2, 9));
    assert_eq!(b.merge(a), SimpleSpan::new(2, 9));
}

#[test]
fn or_keeps_first_success() {
    let t = tokens("a");
    let r = tok('a', 1i64).or(tok('a', 2i64)).parse(&t);
    let (rest, (out, span)) = r.unwrap();
    assert_eq!(out, 1);
    assert_eq!(span, SimpleSpan::new(0, 1));
    assert!(rest.is_empty());
}

#[test]
fn or_falls_back_to_second() {
    let t = tokens("bz");
    let (rest, (out, _)) = tok('a', 1i64).or(tok('b', 2i64)).parse(&t).unwrap();
    assert_eq!(out, 2);
    assert_eq!(rest, &t[1..]);
}

#[test]
fn or_merges_both_failures() {
    let t = tokens("c");
    let e = tok('a', 1i64).or(tok('b', 2i64)).parse(&t).unwrap_err();
    assert_eq!(
        e,
        Simple::Merged(
            Box::new(Simple::Unexpected(vec!['a'], 'c', SimpleSpan::new(0, 1))),
            Box::new(Simple::Unexpected(vec!['b'], 'c', SimpleSpan::new(0, 1))),
        )
    );
}

#[test]
fn collect_on_empty_input_succeeds() {
    let t: Vec<(char, SimpleSpan)> = Vec::new();
    let (rest, (items, span)) = tok('x', 'x').repeated().collect().parse(&t).unwrap();
    assert!(rest.is_empty());
    assert!(items.is_empty());
    assert_eq!(span, SimpleSpan::empty());
}

#[test]
fn collect_with_no_match_consumes_nothing() {
    let t = tokens("yy");
    let (rest, (items, span)) = tok('x', 'x').repeated().collect().parse(&t).unwrap();
    assert_eq!(rest.len(), 2);
    assert!(items.is_empty());
    assert_eq!(span, SimpleSpan::empty());
}

#[test]
fn collect_accumulates_every_match() {
    let t = tokens("xxxy");
    let (rest, (items, span)) = tok('x', 'x').repeated().collect().parse(&t).unwrap();
    assert_eq!(items.len(), 3);
    assert_eq!(
        items,
        vec![
            ('x', SimpleSpan::new(0, 1)),
            ('x', SimpleSpan::new(1, 2)),
            ('x', SimpleSpan::new(2, 3)),
        ]
    );
    assert_eq!(rest, &t[3..]);
    assert_eq!(rest[0].0, 'y');
    assert_eq!(span, SimpleSpan::new(0, 3));
}

#[test]
fn then_consumes_both() {
    let t = tokens("abc");
    let (rest, (out, span)) = tok('a', 'A').then(tok('b', 'B')).parse(&t).unwrap();
    assert_eq!(out, ('A', 'B'));
    assert_eq!(span, SimpleSpan::new(0, 2));
    assert_eq!(rest.len(), 1);
    assert_eq!(rest[0].0, 'c');
}

#[test]
fn then_reports_failure_of_second() {
    let t = tokens("ac");
    let e = tok('a', 'A').then(tok('b', 'B')).parse(&t).unwrap_err();
    assert_eq!(e, Simple::Unexpected(vec!['b'], 'c', SimpleSpan::new(1, 2)));
}

#[test]
fn just_mismatch_is_unexpected() {
    let t = tokens("b");
    let e = tok('a', ()).parse(&t).unwrap_err();
    assert_eq!(e, Simple::Unexpected(vec!['a'], 'b', SimpleSpan::new(0, 1)));
}

#[test]
fn just_on_empty_input_is_end_of_input() {
    let t: Vec<(char, SimpleSpan)> = Vec::new();
    let e = tok('a', ()).parse(&t).unwrap_err();
    assert_eq!(e, Simple::EndOfInput(vec!['a']));
}

#[test]
fn just_consumes_one_token() {
    let t = tokens("aa");
    let (rest, (out, span)) = tok('a', 5u32).parse(&t).unwrap();
    assert_eq!(out, 5);
    assert_eq!(span, SimpleSpan::new(0, 1));
    assert_eq!(rest.len(), 1);
}

struct Sum;

impl Func<(i64, char, i64), i64> for Sum {
    fn spec_apply(&self, a: (i64, char, i64)) -> i64 {
        self.apply(a)
    }

    fn apply(&self, a: (i64, char, i64)) -> i64 {
        a.0 + a.2
    }
}

struct Minus;

impl Func<(i64, char, i64), i64> for Minus {
    fn spec_apply(&self, a: (i64, char, i64)) -> i64 {
        self.apply(a)
    }

    fn apply(&self, a: (i64, char, i64)) -> i64 {
        a.0 - a.2
    }
}

fn digit() -> parsekit::Or<parsekit::Or<Just<char, i64, SimpleSpan, Fail>, Just<char, i64, SimpleSpan, Fail>>, Just<char, i64, SimpleSpan, Fail>> {
    tok('1', 1i64).or(tok('2', 2i64)).or(tok('3', 3i64))
}

#[test]
fn infix_sums_left_to_right() {
    let t = tokens("1+2+3");
    let operand = digit();
    let (rest, (out, span)) = operand.infix(tok('+', '+'), Sum).parse(&t).unwrap();
    assert_eq!(out, 6);
    assert!(rest.is_empty());
    assert_eq!(span, SimpleSpan::new(0, 5));
}

#[test]
fn infix_is_left_associative() {
    let t = tokens("3-2-1");
    let operand = digit();
    let (_, (out, _)) = operand.infix(tok('-', '-'), Minus).parse(&t).unwrap();
    assert_eq!(out, 0);
}

#[test]
fn infix_stops_before_dangling_operator() {
    let t = tokens("1+");
    let operand = digit();
    let (rest, (out, _)) = operand.infix(tok('+', '+'), Sum).parse(&t).unwrap();
    assert_eq!(out, 1);
    assert_eq!(rest.len(), 1);
}

struct Push;

impl Func<(char, i64), i64> for Push {
    fn spec_apply(&self, a: (char, i64)) -> i64 {
        self.apply(a)
    }

    fn apply(&self, a: (char, i64)) -> i64 {
        a.1 * 10 + (a.0 as i64 - '0' as i64)
    }
}

struct Append;

impl Func<(i64, char), i64> for Append {
    fn spec_apply(&self, a: (i64, char)) -> i64 {
        self.apply(a)
    }

    fn apply(&self, a: (i64, char)) -> i64 {
        a.0 * 10 + (a.1 as i64 - '0' as i64)
    }
}

#[test]
fn foldr_combines_from_the_right() {
    let t = tokens("123;");
    let digits = tok('1', '1').or(tok('2', '2')).or(tok('3', '3'));
    let (rest, (out, span)) = digits.repeated().foldr(tok(';', 0i64), Push).parse(&t).unwrap();
    assert_eq!(out, 321);
    assert!(rest.is_empty());
    assert_eq!(span, SimpleSpan::new(0, 4));
}

#[test]
fn foldl_combines_from_the_left() {
    let t = tokens("123");
    let digits = tok('1', '1').or(tok('2', '2')).or(tok('3', '3'));
    let (rest, (out, span)) = tok('1', 1i64).foldl(digits.repeated(), Append).parse(&t).unwrap();
    assert_eq!(out, 123);
    assert!(rest.is_empty());
    assert_eq!(span, SimpleSpan::new(0, 3));
}

struct Double;

impl Func<i64, i64> for Double {
    fn spec_apply(&self, a: i64) -> i64 {
        self.apply(a)
    }

    fn apply(&self, a: i64) -> i64 {
        a * 2
    }
}

struct StartOf;

impl Func<(i64, SimpleSpan), usize> for StartOf {
    fn spec_apply(&self, a: (i64, SimpleSpan)) -> usize {
        self.apply(a)
    }

    fn apply(&self, a: (i64, SimpleSpan)) -> usize {
        a.1.start
    }
}

#[test]
fn map_changes_output_only() {
    let t = tokens("xa");
    let (_, (out, span)) = tok('x', 21i64).map(Double).parse(&t).unwrap();
    assert_eq!(out, 42);
    assert_eq!(span, SimpleSpan::new(0, 1));
}

#[test]
fn map_with_sees_the_span() {
    let t = tokens("ab");
    let p = tok('a', 0i64).then(tok('b', 1i64)).map(Double2);
    let (_, (out, _)) = p.parse(&t).unwrap();
    assert_eq!(out, 2);
    let t2 = tokens("zx");
    let (_, (start, _)) = tok('z', 0i64).map_with(StartOf).parse(&t2).unwrap();
    assert_eq!(start, 0);
}

struct Double2;

impl Func<(i64, i64), i64> for Double2 {
    fn spec_apply(&self, a: (i64, i64)) -> i64 {
        self.apply(a)
    }

    fn apply(&self, a: (i64, i64)) -> i64 {
        (a.0 + a.1) * 2
    }
}

#[test]
fn span_yields_covered_range() {
    let t = tokens("ab");
    let (_, (out, span)) = tok('a', ()).then(tok('b', ())).span().parse(&t).unwrap();
    assert_eq!(out, SimpleSpan::new(0, 2));
    assert_eq!(span, out);
}

#[test]
fn delimited_by_keeps_inner_output() {
    let t = tokens("(1)");
    let (rest, (out, span)) = tok('1', 1i64).delimited_by('(', ')').parse(&t).unwrap();
    assert_eq!(out, 1);
    assert!(rest.is_empty());
    assert_eq!(span, SimpleSpan::new(0, 3));
}

#[test]
fn delimited_by_requires_closing_token() {
    let t = tokens("(1");
    let e = tok('1', 1i64).delimited_by('(', ')').parse(&t).unwrap_err();
    assert_eq!(e, Simple::EndOfInput(vec![')']));
}

struct Nothing;

impl Parser<char, (), SimpleSpan, Fail> for Nothing {
    fn spec_parse(
        &self,
        tokens: TokenSeq<char, SimpleSpan>,
    ) -> SpecResult<char, (), SimpleSpan, SimpleModel<char, SimpleSpan>> {
        Ok((tokens, ((), SimpleSpan::empty())))
    }

    fn parse<'a>(
        &self,
        tokens: &'a [(char, SimpleSpan)],
    ) -> PResult<'a, char, (), SimpleSpan, Fail> {
        Ok((tokens, ((), SimpleSpan::empty())))
    }
}

#[test]
fn repetition_ends_at_step_that_consumes_nothing() {
    let t = tokens("ab");
    let (rest, (items, span)) = Nothing.repeated().collect().parse(&t).unwrap();
    assert!(items.is_empty());
    assert_eq!(rest.len(), 2);
    assert_eq!(span, SimpleSpan::empty());
}

#[test]
fn foldr_fails_without_last() {
    let t = tokens("12");
    let digits = tok('1', '1').or(tok('2', '2'));
    let e = digits.repeated().foldr(tok(';', 0i64), Push).parse(&t).unwrap_err();
    assert_eq!(e, Simple::EndOfInput(vec![';']));
}

#[test]
fn foldl_fails_without_first() {
    let t = tokens("23");
    let digits = tok('2', '2').or(tok('3', '3'));
    let e = tok('1', 1i64).foldl(digits.repeated(), Append).parse(&t).unwrap_err();
    assert_eq!(e, Simple::Unexpected(vec!['1'], '2', SimpleSpan::new(0, 1)));
}

#[test]
fn single_match_collect_span() {
    let t = tokens("x");
    let (_, (items, span)) = tok('x', 7u32).repeated().collect().parse(&t).unwrap();
    assert_eq!(items, vec![(7u32, SimpleSpan::new(0, 1))]);
    assert_eq!(span, SimpleSpan::new(0, 1));
}

#[test]
fn parser_by_reference() {
    let t = tokens("aa");
    let a = tok('a', 1i64);
    let (rest, (out, _)) = (&a).then(&a).parse(&t).unwrap();
    assert_eq!(out, (1, 1));
    assert!(rest.is_empty());
}

#[test]
fn integer_tokens() {
    let t = [(7u8, ()), (9u8, ())];
    let p = just::<u8, u8, (), ()>(7, 70).then(just(9, 90));
    let (rest, (out, ())) = p.parse(&t).unwrap();
    assert_eq!(out, (70, 90));
    assert!(rest.is_empty());
}
