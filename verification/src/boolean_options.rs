//! Options that control string-to-boolean conversion.

use vstd::prelude::*;

use crate::error::BooleanLiteralConflictError;
use crate::policy::BooleanNumericPolicy;
use crate::text::{ascii_lowercase, chars_eq_ignore_ascii_case, chars_equal, chars_of, eq_ignore_ascii_case};

verus! {

/// The texts held by a list of strings.
pub open spec fn texts_of(strings: Seq<String>) -> Seq<Seq<char>> {
    strings.map_values(|s: String| s@)
}

/// Whether `value` matches `literal` under the case-sensitivity rule.
pub open spec fn literal_matches(case_sensitive: bool, literal: Seq<char>, value: Seq<char>) -> bool {
    if case_sensitive {
        literal == value
    } else {
        eq_ignore_ascii_case(literal, value)
    }
}

/// Whether `value` matches any of `literals`.
pub open spec fn matches_any(literals: Seq<Seq<char>>, case_sensitive: bool, value: Seq<char>) -> bool {
    exists|i: int| 0 <= i < literals.len() && literal_matches(case_sensitive, #[trigger] literals[i], value)
}

/// Whether some true literal matches some false literal.
pub open spec fn literal_sets_overlap(
    true_literals: Seq<Seq<char>>,
    false_literals: Seq<Seq<char>>,
    case_sensitive: bool,
) -> bool {
    exists|i: int, j: int|
        0 <= i < true_literals.len() && 0 <= j < false_literals.len() && literal_matches(
            case_sensitive,
            #[trigger] true_literals[i],
            #[trigger] false_literals[j],
        )
}

/// Mathematical model of [`BooleanConversionOptions`].
pub struct BooleanOptionsView {
    /// Texts accepted as `true`, in configuration order.
    pub true_literals: Seq<Seq<char>>,
    /// Texts accepted as `false`, in configuration order.
    pub false_literals: Seq<Seq<char>>,
    /// Whether literal matching is case-sensitive.
    pub case_sensitive: bool,
    /// Policy used when converting integer sources.
    pub numeric_policy: BooleanNumericPolicy,
}

impl BooleanOptionsView {
    /// The true and false literal sets are disjoint under the matching rule.
    pub open spec fn is_consistent(self) -> bool {
        !literal_sets_overlap(self.true_literals, self.false_literals, self.case_sensitive)
    }

    /// What parsing `value` yields: `true` when it matches a true literal,
    /// otherwise `false` when it matches a false literal, otherwise nothing.
    pub open spec fn parse(self, value: Seq<char>) -> Option<bool> {
        if matches_any(self.true_literals, self.case_sensitive, value) {
            Some(true)
        } else if matches_any(self.false_literals, self.case_sensitive, value) {
            Some(false)
        } else {
            None
        }
    }
}

/// Options that control string-to-boolean conversion.
///
/// The true and false literal sets never overlap under the configured
/// case-sensitivity rule: every constructor checks it.
#[derive(Debug, PartialEq, Eq)]
pub struct BooleanConversionOptions {
    /// String literals accepted as `true`.
    true_literals: Vec<String>,
    /// String literals accepted as `false`.
    false_literals: Vec<String>,
    /// Whether literal matching is case-sensitive.
    case_sensitive: bool,
    /// Policy used when converting integer sources.
    numeric_policy: BooleanNumericPolicy,
}

impl View for BooleanConversionOptions {
    type V = BooleanOptionsView;

    closed spec fn view(&self) -> BooleanOptionsView {
        BooleanOptionsView {
            true_literals: texts_of(self.true_literals@),
            false_literals: texts_of(self.false_literals@),
            case_sensitive: self.case_sensitive,
            numeric_policy: self.numeric_policy,
        }
    }
}

/// Whether `value` matches `literal` under the case-sensitivity rule.
fn literal_matches_exec(case_sensitive: bool, literal: &String, value: &Vec<char>) -> (result: bool)
    ensures
        result == literal_matches(case_sensitive, literal@, value@),
{
    let literal_chars = chars_of(literal.as_str());
    if case_sensitive {
        chars_equal(&literal_chars, value)
    } else {
        chars_eq_ignore_ascii_case(&literal_chars, value)
    }
}

/// Whether `value` matches any literal of a list.
fn matches_any_exec(literals: &Vec<String>, case_sensitive: bool, value: &Vec<char>) -> (result: bool)
    ensures
        result == matches_any(texts_of(literals@), case_sensitive, value@),
{
    let ghost texts = texts_of(literals@);
    let mut i: usize = 0;
    while i < literals.len()
        invariant
            i <= literals.len(),
            texts == texts_of(literals@),
            forall|j: int| 0 <= j < i ==> !literal_matches(case_sensitive, #[trigger] texts[j], value@),
        decreases literals.len() - i,
    {
        if literal_matches_exec(case_sensitive, &literals[i], value) {
            assert(texts[i as int] == literals@[i as int]@);
            return true;
        }
        i += 1;
    }
    false
}

/// Whether some literal of the first list matches some literal of the second.
fn literal_sets_overlap_exec(
    true_literals: &Vec<String>,
    false_literals: &Vec<String>,
    case_sensitive: bool,
) -> (result: bool)
    ensures
        result == literal_sets_overlap(
            texts_of(true_literals@),
            texts_of(false_literals@),
            case_sensitive,
        ),
{
    let ghost t = texts_of(true_literals@);
    let ghost f = texts_of(false_literals@);
    let mut i: usize = 0;
    while i < true_literals.len()
        invariant
            i <= true_literals.len(),
            t == texts_of(true_literals@),
            f == texts_of(false_literals@),
            forall|a: int, b: int|
                0 <= a < i && 0 <= b < f.len() ==> !literal_matches(
                    case_sensitive,
                    #[trigger] t[a],
                    #[trigger] f[b],
                ),
        decreases true_literals.len() - i,
    {
        let candidate = chars_of(true_literals[i].as_str());
        if matches_any_exec(false_literals, case_sensitive, &candidate) {
            proof {
                let b = choose|b: int|
                    0 <= b < f.len() && literal_matches(case_sensitive, #[trigger] f[b], candidate@);
                assert(t[i as int] == candidate@);
                if case_sensitive {
                    assert(literal_matches(case_sensitive, t[i as int], f[b]));
                } else {
                    assert(literal_matches(case_sensitive, t[i as int], f[b]));
                }
            }
            return true;
        }
        proof {
            assert forall|b: int| 0 <= b < f.len() implies !literal_matches(
                case_sensitive,
                #[trigger] t[i as int],
                f[b],
            ) by {
                assert(t[i as int] == candidate@);
                if literal_matches(case_sensitive, t[i as int], f[b]) {
                    assert(literal_matches(case_sensitive, f[b], candidate@));
                }
            }
        }
        i += 1;
    }
    false
}

/// Two texts of different lengths never match.
proof fn lemma_lengths_differ(a: Seq<char>, b: Seq<char>, case_sensitive: bool)
    requires
        a.len() != b.len(),
    ensures
        !literal_matches(case_sensitive, a, b),
{
    assert(ascii_lowercase(a).len() != ascii_lowercase(b).len());
}

/// Two texts whose first characters differ after case folding never match.
proof fn lemma_first_chars_differ(a: Seq<char>, b: Seq<char>, case_sensitive: bool)
    requires
        a.len() > 0,
        b.len() > 0,
        ascii_lowercase(a)[0] != ascii_lowercase(b)[0],
    ensures
        !literal_matches(case_sensitive, a, b),
{
}

impl BooleanConversionOptions {
    /// The model of the strict options.
    pub open spec fn strict_view() -> BooleanOptionsView {
        BooleanOptionsView {
            true_literals: seq!["true"@],
            false_literals: seq!["false"@],
            case_sensitive: false,
            numeric_policy: BooleanNumericPolicy::ZeroOrOne,
        }
    }

    /// The model of the environment-friendly options.
    pub open spec fn env_friendly_view() -> BooleanOptionsView {
        BooleanOptionsView {
            true_literals: seq!["true"@, "yes"@, "on"@],
            false_literals: seq!["false"@, "no"@, "off"@],
            case_sensitive: false,
            numeric_policy: BooleanNumericPolicy::ZeroOrOne,
        }
    }

    /// The literal sets are disjoint under the matching rule.
    #[verifier::type_invariant]
    closed spec fn literals_are_disjoint(self) -> bool {
        self@.is_consistent()
    }

    /// Creates validated boolean conversion options.
    ///
    /// Returns [`BooleanLiteralConflictError`] when a literal belongs to both
    /// sets under the selected case-sensitivity rule.
    pub fn try_new(
        true_literals: Vec<String>,
        false_literals: Vec<String>,
        case_sensitive: bool,
        numeric_policy: BooleanNumericPolicy,
    ) -> (result: Result<Self, BooleanLiteralConflictError>)
        ensures
            result is Ok <==> !literal_sets_overlap(
                texts_of(true_literals@),
                texts_of(false_literals@),
                case_sensitive,
            ),
            result matches Ok(options) ==> {
                &&& options@.true_literals == texts_of(true_literals@)
                &&& options@.false_literals == texts_of(false_literals@)
                &&& options@.case_sensitive == case_sensitive
                &&& options@.numeric_policy == numeric_policy
            },
    {
        if literal_sets_overlap_exec(&true_literals, &false_literals, case_sensitive) {
            Err(BooleanLiteralConflictError)
        } else {
            Ok(BooleanConversionOptions { true_literals, false_literals, case_sensitive, numeric_policy })
        }
    }

    /// Creates strict boolean conversion options accepting the textual
    /// literals `true` and `false`, case-insensitively.
    pub fn strict() -> (options: Self)
        ensures
            options@ == Self::strict_view(),
    {
        let true_literals = default_true_literals();
        let false_literals = default_false_literals();
        proof {
            reveal_strlit("true");
            reveal_strlit("false");
            assert(texts_of(true_literals@) =~= seq!["true"@]);
            assert(texts_of(false_literals@) =~= seq!["false"@]);
            lemma_lengths_differ("true"@, "false"@, false);
        }
        BooleanConversionOptions {
            true_literals,
            false_literals,
            case_sensitive: false,
            numeric_policy: BooleanNumericPolicy::ZeroOrOne,
        }
    }

    /// Creates options suitable for environment variable values, accepting
    /// `true/false`, `yes/no` and `on/off`, case-insensitively.
    pub fn env_friendly() -> (options: Self)
        ensures
            options@ == Self::env_friendly_view(),
    {
        let true_literals = vec![
            String::from_str("true"),
            String::from_str("yes"),
            String::from_str("on"),
        ];
        let false_literals = vec![
            String::from_str("false"),
            String::from_str("no"),
            String::from_str("off"),
        ];
        proof {
            reveal_strlit("true");
            reveal_strlit("yes");
            reveal_strlit("on");
            reveal_strlit("false");
            reveal_strlit("no");
            reveal_strlit("off");
            let t = seq!["true"@, "yes"@, "on"@];
            let f = seq!["false"@, "no"@, "off"@];
            assert(texts_of(true_literals@) =~= t);
            assert(texts_of(false_literals@) =~= f);
            assert forall|i: int, j: int| 0 <= i < 3 && 0 <= j < 3 implies !literal_matches(
                false,
                #[trigger] t[i],
                #[trigger] f[j],
            ) by {
                if t[i].len() != f[j].len() {
                    lemma_lengths_differ(t[i], f[j], false);
                } else {
                    assert(ascii_lowercase(t[i])[0] == t[i][0]);
                    assert(ascii_lowercase(f[j])[0] == f[j][0]);
                    lemma_first_chars_differ(t[i], f[j], false);
                }
            }
        }
        BooleanConversionOptions {
            true_literals,
            false_literals,
            case_sensitive: false,
            numeric_policy: BooleanNumericPolicy::ZeroOrOne,
        }
    }

    /// Gets the accepted true literals.
    pub fn true_literals(&self) -> (literals: &[String])
        ensures
            texts_of(literals@) == self@.true_literals,
    {
        self.true_literals.as_slice()
    }

    /// Gets the accepted false literals.
    pub fn false_literals(&self) -> (literals: &[String])
        ensures
            texts_of(literals@) == self@.false_literals,
    {
        self.false_literals.as_slice()
    }

    /// Returns whether literal matching is case-sensitive.
    pub fn case_sensitive(&self) -> (case_sensitive: bool)
        ensures
            case_sensitive == self@.case_sensitive,
    {
        self.case_sensitive
    }

    /// Returns the integer-to-boolean policy.
    pub fn numeric_policy(&self) -> (policy: BooleanNumericPolicy)
        ensures
            policy == self@.numeric_policy,
    {
        self.numeric_policy
    }

    /// Returns a copy with boolean literal matching case sensitivity changed,
    /// or [`BooleanLiteralConflictError`] when the new rule makes a true
    /// literal equal to a false literal.
    pub fn with_case_sensitive(self, case_sensitive: bool) -> (result: Result<
        Self,
        BooleanLiteralConflictError,
    >)
        ensures
            result is Ok <==> !literal_sets_overlap(
                self@.true_literals,
                self@.false_literals,
                case_sensitive,
            ),
            result matches Ok(options) ==> options@ == (BooleanOptionsView {
                case_sensitive,
                ..self@
            }),
    {
        let BooleanConversionOptions { true_literals, false_literals, numeric_policy, .. } = self;
        Self::try_new(true_literals, false_literals, case_sensitive, numeric_policy)
    }

    /// Returns a copy with a different integer-to-boolean policy.
    pub fn with_numeric_policy(self, numeric_policy: BooleanNumericPolicy) -> (options: Self)
        ensures
            options@ == (BooleanOptionsView { numeric_policy, ..self@ }),
    {
        proof {
            use_type_invariant(&self);
        }
        let BooleanConversionOptions { true_literals, false_literals, case_sensitive, .. } = self;
        BooleanConversionOptions { true_literals, false_literals, case_sensitive, numeric_policy }
    }

    /// Returns a copy that accepts an additional true literal, or
    /// [`BooleanLiteralConflictError`] when it matches a false literal.
    pub fn with_true_literal(self, literal: &str) -> (result: Result<
        Self,
        BooleanLiteralConflictError,
    >)
        ensures
            result is Ok <==> !literal_sets_overlap(
                self@.true_literals.push(literal@),
                self@.false_literals,
                self@.case_sensitive,
            ),
            result matches Ok(options) ==> options@ == (BooleanOptionsView {
                true_literals: self@.true_literals.push(literal@),
                ..self@
            }),
    {
        let BooleanConversionOptions { mut true_literals, false_literals, case_sensitive, numeric_policy } =
            self;
        let ghost before = true_literals@;
        true_literals.push(String::from_str(literal));
        assert(texts_of(true_literals@) =~= texts_of(before).push(literal@));
        Self::try_new(true_literals, false_literals, case_sensitive, numeric_policy)
    }

    /// Returns a copy that accepts an additional false literal, or
    /// [`BooleanLiteralConflictError`] when it matches a true literal.
    pub fn with_false_literal(self, literal: &str) -> (result: Result<
        Self,
        BooleanLiteralConflictError,
    >)
        ensures
            result is Ok <==> !literal_sets_overlap(
                self@.true_literals,
                self@.false_literals.push(literal@),
                self@.case_sensitive,
            ),
            result matches Ok(options) ==> options@ == (BooleanOptionsView {
                false_literals: self@.false_literals.push(literal@),
                ..self@
            }),
    {
        let BooleanConversionOptions { true_literals, mut false_literals, case_sensitive, numeric_policy } =
            self;
        let ghost before = false_literals@;
        false_literals.push(String::from_str(literal));
        assert(texts_of(false_literals@) =~= texts_of(before).push(literal@));
        Self::try_new(true_literals, false_literals, case_sensitive, numeric_policy)
    }

    /// Parses a boolean literal using these options: `Some(true)` exactly for
    /// a text matching a true literal, `Some(false)` exactly for one matching
    /// a false literal, and `None` otherwise.
    pub fn parse(&self, value: &str) -> (result: Option<bool>)
        ensures
            result == self@.parse(value@),
            result == Some(true) <==> matches_any(self@.true_literals, self@.case_sensitive, value@),
            result == Some(false) <==> matches_any(
                self@.false_literals,
                self@.case_sensitive,
                value@,
            ),
    {
        proof {
            use_type_invariant(self);
        }
        let chars = chars_of(value);
        if matches_any_exec(&self.true_literals, self.case_sensitive, &chars) {
            Some(true)
        } else if matches_any_exec(&self.false_literals, self.case_sensitive, &chars) {
            proof {
                lemma_parse_sets_exclusive(self@, value@);
            }
            Some(false)
        } else {
            None
        }
    }

    /// Checks whether the true and false literal sets are disjoint; they
    /// always are, so this returns `Ok(())`.
    pub fn validate(&self) -> (result: Result<(), BooleanLiteralConflictError>)
        ensures
            result is Ok,
            self@.is_consistent(),
    {
        proof {
            use_type_invariant(self);
        }
        if literal_sets_overlap_exec(&self.true_literals, &self.false_literals, self.case_sensitive) {
            Err(BooleanLiteralConflictError)
        } else {
            Ok(())
        }
    }
}

/// With disjoint literal sets, a text never matches both a true and a false
/// literal.
proof fn lemma_parse_sets_exclusive(options: BooleanOptionsView, value: Seq<char>)
    requires
        options.is_consistent(),
        matches_any(options.false_literals, options.case_sensitive, value),
    ensures
        !matches_any(options.true_literals, options.case_sensitive, value),
{
    if matches_any(options.true_literals, options.case_sensitive, value) {
        let i = choose|i: int|
            0 <= i < options.true_literals.len() && literal_matches(
                options.case_sensitive,
                #[trigger] options.true_literals[i],
                value,
            );
        let j = choose|j: int|
            0 <= j < options.false_literals.len() && literal_matches(
                options.case_sensitive,
                #[trigger] options.false_literals[j],
                value,
            );
        assert(literal_matches(
            options.case_sensitive,
            options.true_literals[i],
            options.false_literals[j],
        ));
    }
}

/// The true literals of the default options: `true`.
pub fn default_true_literals() -> (literals: Vec<String>)
    ensures
        literals@.len() == 1,
        literals@[0]@ == "true"@,
{
    vec![String::from_str("true")]
}

/// The false literals of the default options: `false`.
pub fn default_false_literals() -> (literals: Vec<String>)
    ensures
        literals@.len() == 1,
        literals@[0]@ == "false"@,
{
    vec![String::from_str("false")]
}

/// A cloned list of strings holds the same texts.
fn clone_strings(strings: &Vec<String>) -> (copy: Vec<String>)
    ensures
        copy@ == strings@,
{
    let mut copy: Vec<String> = Vec::new();
    let mut i: usize = 0;
    while i < strings.len()
        invariant
            i <= strings.len(),
            copy@ == strings@.take(i as int),
        decreases strings.len() - i,
    {
        copy.push(strings[i].clone());
        i += 1;
        assert(copy@ =~= strings@.take(i as int));
    }
    assert(strings@.take(strings.len() as int) =~= strings@);
    copy
}

impl Clone for BooleanConversionOptions {
    /// Copies the options.
    fn clone(&self) -> (copy: Self)
        ensures
            copy@ == self@,
    {
        proof {
            use_type_invariant(self);
        }
        BooleanConversionOptions {
            true_literals: clone_strings(&self.true_literals),
            false_literals: clone_strings(&self.false_literals),
            case_sensitive: self.case_sensitive,
            numeric_policy: self.numeric_policy,
        }
    }
}

impl Default for BooleanConversionOptions {
    /// Creates the strict boolean conversion options.
    fn default() -> (options: Self)
        ensures
            options@ == Self::strict_view(),
    {
        Self::strict()
    }
}

/// Every configured literal of consistent options parses to its own value.
pub proof fn lemma_literals_parse_to_their_value(options: BooleanOptionsView)
    requires
        options.is_consistent(),
    ensures
        forall|i: int|
            0 <= i < options.true_literals.len() ==> options.parse(
                #[trigger] options.true_literals[i],
            ) == Some(true),
        forall|j: int|
            0 <= j < options.false_literals.len() ==> options.parse(
                #[trigger] options.false_literals[j],
            ) == Some(false),
{
    assert forall|i: int| 0 <= i < options.true_literals.len() implies options.parse(
        #[trigger] options.true_literals[i],
    ) == Some(true) by {
        assert(literal_matches(options.case_sensitive, options.true_literals[i], options.true_literals[i]));
    }
    assert forall|j: int| 0 <= j < options.false_literals.len() implies options.parse(
        #[trigger] options.false_literals[j],
    ) == Some(false) by {
        let v = options.false_literals[j];
        assert(literal_matches(options.case_sensitive, v, v));
        lemma_parse_sets_exclusive(options, v);
    }
}

/// Case-insensitive options give the same answer for texts that differ only
/// in ASCII letter case.
pub proof fn lemma_parse_ignores_ascii_case(
    options: BooleanOptionsView,
    a: Seq<char>,
    b: Seq<char>,
)
    requires
        !options.case_sensitive,
        eq_ignore_ascii_case(a, b),
    ensures
        options.parse(a) == options.parse(b),
{
    assert forall|l: Seq<char>| literal_matches(false, l, a) == literal_matches(false, l, b) by {
    }
    assert(matches_any(options.true_literals, false, a) == matches_any(options.true_literals, false, b));
    assert(matches_any(options.false_literals, false, a) == matches_any(options.false_literals, false, b));
}

} // verus!
