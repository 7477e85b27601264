use vstd::prelude::*;

verus! {

/// One atomic string unit from the input argument sequence.
pub type Token = String;

/// A single-pass, pushback-capable stream of tokens.
///
/// A consumer that reads a token but declines to consume it must push the
/// token back before any sibling consumer runs, so the remaining stream is
/// exactly what an untouched stream would have been. The stream is viewed as
/// the sequence of remaining tokens, front first.
///
/// Internally the remaining tokens are kept in reverse order, so taking the
/// next token and pushing one back are both constant-time vector operations.
pub struct TokenStream {
    rev: Vec<String>,
}

impl View for TokenStream {
    type V = Seq<Seq<char>>;

    closed spec fn view(&self) -> Seq<Seq<char>> {
        self.rev.deep_view().reverse()
    }
}

/// Appends `c` to the string.
///
/// Relies on `String::push`, which appends the given character to the end
/// of the string.
#[verifier::external_body]
pub(crate) fn push_char(s: &mut String, c: char)
    ensures
        final(s)@ == old(s)@.push(c),
{
    s.push(c);
}

/// Whether two string slices hold the same characters.
pub fn str_eq(a: &str, b: &str) -> (r: bool)
    ensures
        r == (a@ == b@),
{
    let sa: String = a.to_owned();
    let sb: String = b.to_owned();
    sa == sb
}

impl TokenStream {
    /// Creates a stream that yields the elements of `tokens` in order.
    pub fn new(tokens: Vec<String>) -> (s: TokenStream)
        ensures
            s@ == tokens.deep_view(),
    {
        let ghost all = tokens.deep_view();
        let mut rest = tokens;
        let mut rev: Vec<String> = Vec::new();
        loop
            invariant
                rest.deep_view() + rev.deep_view().reverse() == all,
            ensures
                rest.deep_view().len() == 0,
            decreases rest.len(),
        {
            let ghost prev_rest = rest.deep_view();
            let ghost prev_rev = rev.deep_view();
            match rest.pop() {
                Option::Some(t) => {
                    rev.push(t);
                    proof {
                        assert(rest.deep_view() =~= prev_rest.drop_last());
                        assert(rev.deep_view() =~= prev_rev.push(prev_rest.last()));
                        assert(rev.deep_view().reverse() =~= seq![prev_rest.last()]
                            + prev_rev.reverse());
                        assert(rest.deep_view() + rev.deep_view().reverse() =~= all);
                    }
                },
                Option::None => {
                    break;
                },
            }
        }
        proof {
            assert(rest.deep_view().len() == 0);
            assert(rest.deep_view() + rev.deep_view().reverse()
                =~= rev.deep_view().reverse());
        }
        TokenStream { rev }
    }

    /// The number of tokens that remain in the stream.
    pub fn remaining(&self) -> (n: usize)
        ensures
            n == self@.len(),
    {
        self.rev.len()
    }

    /// Removes and returns the front token, or `None` on an exhausted stream.
    pub fn next(&mut self) -> (r: Option<Token>)
        ensures
            match r {
                Option::Some(t) => old(self)@.len() > 0 && t@ == old(self)@[0]
                    && final(self)@ == old(self)@.drop_first(),
                Option::None => old(self)@.len() == 0 && final(self)@ == old(self)@,
            },
    {
        let ghost prev = self.rev.deep_view();
        let r = self.rev.pop();
        proof {
            if prev.len() > 0 {
                assert(self.rev.deep_view() =~= prev.drop_last());
                assert(self.rev.deep_view().reverse() =~= prev.reverse().drop_first());
            } else {
                assert(self.rev.deep_view() =~= prev);
            }
        }
        r
    }

    /// Puts `t` back at the front of the stream.
    pub fn push_front(&mut self, t: Token)
        ensures
            final(self)@ == seq![t@] + old(self)@,
    {
        let ghost prev = self.rev.deep_view();
        let ghost tv = t@;
        self.rev.push(t);
        proof {
            assert(self.rev.deep_view() =~= prev.push(tv));
            assert(self.rev.deep_view().reverse() =~= seq![tv] + prev.reverse());
        }
    }
}

} // verus!
