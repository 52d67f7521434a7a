use vstd::prelude::*;
use vstd::string::StringExecFns;

verus! {

/// One positional argument slot within a command's shape: a typed acceptance
/// rule for the argument paired with its position.
#[derive(Debug, Clone, Eq, Hash, PartialEq)]
pub enum Token {
    /// Matches only the absence of further arguments.
    Empty,
    /// Matches when the trimmed input equals one of the allowed strings; the
    /// canonical allowed string is extracted, not the raw input.
    Value(Vec<String>),
    /// Reserved for alternatives made of several tokens; matching it is not
    /// defined, and `try_match` must not be called on it with a present input.
    MultiValue(Vec<Vec<String>>),
    /// Matches any present input and extracts it unchanged.
    FullString,
    /// A member reference (id or name): matches any present input and
    /// extracts it unchanged.
    MemberRef,
    /// Matches when the trimmed input is one of the member privacy targets;
    /// the raw input is extracted.
    MemberPrivacyTarget,
    /// Matches exactly `"public"` or `"private"`, untrimmed; the raw input is
    /// extracted.
    PrivacyLevel,
    /// Resolved upstream, before slot matching begins; `try_match` must not
    /// be called on it with a present input.
    Flag,
}

/// The outcome of matching one token against one (possibly absent) argument.
pub enum TokenMatchResult {
    NoMatch,
    /// Token matched, optionally with an extracted value.
    Match(Option<String>),
}

/// The abstract outcome of a match: `None` for no match, `Some(None)` for a
/// match without a value, `Some(Some(v))` for a match extracting `v`.
pub open spec fn match_result_view(r: TokenMatchResult) -> Option<Option<Seq<char>>> {
    match r {
        TokenMatchResult::NoMatch => None,
        TokenMatchResult::Match(v) => match v {
            None => Some(None),
            Some(s) => Some(Some(s@)),
        },
    }
}

/// What `str::trim` returns: the input without its leading and trailing
/// whitespace. The result depends on the characters alone.
pub uninterp spec fn trimmed(s: Seq<char>) -> Seq<char>;

/// Relies on str::trim: removes leading and trailing whitespace, a function
/// of the characters alone, named `trimmed` here.
#[verifier::external_body]
fn trim_to_string(s: &String) -> (r: String)
    ensures
        r@ == trimmed(s@),
{
    s.trim().to_string()
}

/// The process-wide member privacy target vocabulary.
pub open spec fn spec_member_privacy_targets() -> Seq<Seq<char>> {
    seq!["visibility"@, "name"@, "todo"@]
}

/// The member privacy target vocabulary as strings, in declaration order.
pub fn member_privacy_targets() -> (r: Vec<String>)
    ensures
        r.deep_view() == spec_member_privacy_targets(),
{
    let mut r: Vec<String> = Vec::new();
    r.push(String::from_str("visibility"));
    r.push(String::from_str("name"));
    r.push(String::from_str("todo"));
    proof {
        assert(r.deep_view() =~= spec_member_privacy_targets());
    }
    r
}

/// Whether the trimmed input equals one of the allowed strings of a `Value` token.
pub open spec fn value_accepts(values: Seq<String>, input: Seq<char>) -> bool {
    exists|i: int| 0 <= i < values.len() && values[i]@ == trimmed(input)
}

/// The outcome of matching `token` against `input`, in the abstract encoding
/// of `match_result_view`. Only `Empty` matches an absent input; every other
/// token needs a present input to attempt its own predicate.
pub open spec fn spec_try_match(token: Token, input: Option<Seq<char>>) -> Option<Option<Seq<char>>>
    recommends
        input is Some ==> !(token is Flag) && !(token is MultiValue),
{
    match input {
        None => if token is Empty {
            Some(None)
        } else {
            None
        },
        Some(s) => match token {
            Token::Empty => None,
            Token::Value(values) => if value_accepts(values@, s) {
                Some(Some(trimmed(s)))
            } else {
                None
            },
            Token::MultiValue(_) => None,
            Token::FullString => Some(Some(s)),
            Token::MemberRef => Some(Some(s)),
            Token::MemberPrivacyTarget => if spec_member_privacy_targets().contains(trimmed(s)) {
                Some(Some(s))
            } else {
                None
            },
            Token::PrivacyLevel => if s == "public"@ || s == "private"@ {
                Some(Some(s))
            } else {
                None
            },
            Token::Flag => None,
        },
    }
}

impl Token {
    /// Matches this token against one raw argument, or against `None` when
    /// the input is exhausted. Pure: the outcome is a function of the token,
    /// the input and the fixed privacy target vocabulary.
    #[verifier::loop_isolation(false)]
    pub fn try_match(&self, input: Option<String>) -> (result: TokenMatchResult)
        requires
            input is Some ==> !(self is Flag) && !(self is MultiValue),
        ensures
            match_result_view(result) == spec_try_match(*self, input.deep_view()),
    {
        // short circuit on empty things
        if matches!(self, Self::Empty) && input.is_none() {
            return TokenMatchResult::Match(None);
        } else if input.is_none() {
            return TokenMatchResult::NoMatch;
        }

        let raw = input.unwrap();

        match self {
            Self::Empty => TokenMatchResult::NoMatch,
            Self::Flag => unreached(),  // matched upstream
            Self::Value(values) => {
                let t = trim_to_string(&raw);
                let mut i: usize = 0;
                while i < values.len()
                    invariant
                        i <= values@.len(),
                        t@ == trimmed(raw@),
                        forall|j: int| 0 <= j < i ==> values@[j]@ != trimmed(raw@),
                    decreases values@.len() - i,
                {
                    let v: &String = &values[i];
                    if *v == t {
                        proof {
                            assert(values@[i as int]@ == trimmed(raw@));
                            assert(value_accepts(values@, raw@));
                        }
                        return TokenMatchResult::Match(Some(v.clone()));
                    }
                    i += 1;
                }
                TokenMatchResult::NoMatch
            },
            Self::MultiValue(_) => unreached(),  // matching is not defined yet
            Self::FullString => TokenMatchResult::Match(Some(raw)),
            Self::MemberRef => TokenMatchResult::Match(Some(raw)),
            Self::MemberPrivacyTarget => {
                let t = trim_to_string(&raw);
                let targets = member_privacy_targets();
                let mut i: usize = 0;
                while i < targets.len()
                    invariant
                        i <= targets@.len(),
                        t@ == trimmed(raw@),
                        targets.deep_view() == spec_member_privacy_targets(),
                        forall|j: int| 0 <= j < i ==> targets@[j]@ != trimmed(raw@),
                    decreases targets@.len() - i,
                {
                    let v: &String = &targets[i];
                    if *v == t {
                        proof {
                            assert(spec_member_privacy_targets()[i as int] == trimmed(raw@));
                            assert(spec_member_privacy_targets().contains(trimmed(raw@)));
                        }
                        return TokenMatchResult::Match(Some(raw));
                    }
                    i += 1;
                }
                proof {
                    assert forall|k: int|
                        0 <= k < spec_member_privacy_targets().len() implies spec_member_privacy_targets()[k]
                        != trimmed(raw@) by {
                        assert(targets@[k]@ != trimmed(raw@));
                    }
                }
                TokenMatchResult::NoMatch
            },
            Self::PrivacyLevel => {
                let public_level = String::from_str("public");
                let private_level = String::from_str("private");
                if raw == public_level || raw == private_level {
                    TokenMatchResult::Match(Some(raw))
                } else {
                    TokenMatchResult::NoMatch
                }
            },
        }
    }
}

/// A slot matches an absent input exactly when it is `Empty`, and then the
/// match carries no value; every other slot rejects an absent input.
pub proof fn lemma_absent_input(token: Token)
    ensures
        token is Empty ==> spec_try_match(token, None) == Some(None::<Seq<char>>),
        !(token is Empty) ==> spec_try_match(token, None) is None,
{
}

/// A `FullString` slot matches every present input, whitespace or empty
/// included, and extracts it unchanged.
pub proof fn lemma_full_string_identity(s: Seq<char>)
    ensures
        spec_try_match(Token::FullString, Some(s)) == Some(Some(s)),
{
}

/// A `PrivacyLevel` slot matches exactly the inputs `"public"` and
/// `"private"`, compared untrimmed and case-sensitively, and extracts the raw
/// input; every other present input is rejected.
pub proof fn lemma_privacy_level(s: Seq<char>)
    ensures
        s == "public"@ || s == "private"@ ==> spec_try_match(Token::PrivacyLevel, Some(s))
            == Some(Some(s)),
        s != "public"@ && s != "private"@ ==> spec_try_match(Token::PrivacyLevel, Some(s)) is None,
{
}

} // verus!
