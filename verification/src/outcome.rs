//! The validation engine and the test runner.
//!
//! A word is judged against the ordered rule list: the first rule whose
//! intent disagrees with its matcher's verdict makes the word invalid,
//! carrying that rule's note.  Each declared test then passes exactly when
//! the declared intent agrees with the verdict.

use vstd::prelude::*;

use crate::draft::Draft;
use crate::rx::{regex_is_match, regex_match};
use crate::types::{msgs_view, rules_view, Message, MessageV, Note, Rule, RuleV, TestDraft,
    TestDraftV};

verus! {

/// Verdict of one word against the rule list; invalid words carry the
/// note of the rule that rejected them, if it had one.
#[derive(Debug, Clone, PartialEq, Eq)]
pub enum Validity {
    Valid,
    Invalid(Option<Note>),
}

/// Mathematical image of a [`Validity`].
pub ghost enum ValidityV {
    Valid,
    Invalid(Option<Seq<char>>),
}

impl View for Validity {
    type V = ValidityV;

    open spec fn view(&self) -> ValidityV {
        match self {
            Validity::Valid => ValidityV::Valid,
            Validity::Invalid(Some(n)) => ValidityV::Invalid(Some(n@)),
            Validity::Invalid(None) => ValidityV::Invalid(None),
        }
    }
}

/// The verdict for `word`: invalid at the first rule whose intent differs
/// from its matcher's verdict on the word, valid when no rule does.
pub open spec fn spec_validate(word: Seq<char>, rules: Seq<RuleV>) -> ValidityV
    decreases rules.len(),
{
    if rules.len() == 0 {
        ValidityV::Valid
    } else if rules[0].intent != regex_match(rules[0].pattern, word) {
        ValidityV::Invalid(rules[0].note)
    } else {
        spec_validate(word, rules.drop_first())
    }
}

/// Whether rule `i` rejects the word: its intent disagrees with its
/// matcher's verdict.
pub open spec fn violates(word: Seq<char>, rules: Seq<RuleV>, i: int) -> bool {
    rules[i].intent != regex_match(rules[i].pattern, word)
}

/// The first index whose rule rejects the word, or `rules.len()` if none.
pub open spec fn first_violation(word: Seq<char>, rules: Seq<RuleV>) -> int
    decreases rules.len(),
{
    if rules.len() == 0 {
        0
    } else if violates(word, rules, 0) {
        0
    } else {
        1 + first_violation(word, rules.drop_first())
    }
}

/// The ordered scan short-circuits at the first index whose rule's intent
/// disagrees with its matcher's verdict on the word: the verdict is valid
/// exactly when no such index exists, and an invalid verdict carries the
/// note of that earliest rule.
pub proof fn lemma_validate_first_violation(word: Seq<char>, rules: Seq<RuleV>)
    ensures
        0 <= first_violation(word, rules) <= rules.len(),
        forall|j: int| 0 <= j < first_violation(word, rules) ==> !violates(word, rules, j),
        first_violation(word, rules) < rules.len() ==> violates(
            word,
            rules,
            first_violation(word, rules),
        ),
        spec_validate(word, rules) is Valid <==> first_violation(word, rules) == rules.len(),
        first_violation(word, rules) < rules.len() ==> spec_validate(word, rules)
            == ValidityV::Invalid(rules[first_violation(word, rules)].note),
    decreases rules.len(),
{
    if rules.len() == 0 {
    } else if violates(word, rules, 0) {
    } else {
        let rest = rules.drop_first();
        lemma_validate_first_violation(word, rest);
        let f = first_violation(word, rules);
        assert(f == 1 + first_violation(word, rest));
        assert forall|j: int| 0 <= j < f implies !violates(word, rules, j) by {
            if j > 0 {
                assert(rest[j - 1] == rules[j]);
                assert(!violates(word, rest, j - 1));
            }
        }
        if f < rules.len() {
            assert(rest[f - 1] == rules[f]);
        }
    }
}

/// Judges one word against the ordered compiled rule list.
pub fn validate_test(word: &str, rules: &[Rule]) -> (r: Validity)
    ensures
        r@ == spec_validate(word@, rules_view(rules@)),
{
    let ghost all = rules_view(rules@);
    let mut i: usize = 0;
    proof {
        assert(all.skip(0) =~= all);
    }
    while i < rules.len()
        invariant
            i <= rules@.len(),
            all == rules_view(rules@),
            spec_validate(word@, all) == spec_validate(word@, all.skip(i as int)),
        decreases rules@.len() - i,
    {
        let rule = &rules[i];
        let matched = regex_is_match(&rule.pattern, word);
        proof {
            assert(all.skip(i as int)[0] == all[i as int]);
            assert(all[i as int] == rules@[i as int]@);
            assert(all.skip(i as int).drop_first() =~= all.skip(i as int + 1));
        }
        if rule.intent != matched {
            let note = match &rule.note {
                Some(n) => Some(Note(n.0.clone())),
                None => None,
            };
            return Validity::Invalid(note);
        }
        i += 1;
    }
    proof {
        assert(all.skip(rules@.len() as int) =~= Seq::<RuleV>::empty());
    }
    Validity::Valid
}

/// Status of one declared test after running.
#[derive(Debug, Clone, PartialEq, Eq)]
pub enum PassStatus {
    /// Declared intent and verdict agreed.
    Pass,
    /// Declared intent and verdict disagreed.
    Fail(FailKind),
}

/// The manner in which a declared test failed.
#[derive(Debug, Clone, PartialEq, Eq)]
pub enum FailKind {
    /// The word was judged valid though the test declared it invalid.
    ShouldBeInvalid,
    /// The word was judged invalid though declared valid, and the
    /// rejecting rule carried no note.
    NoReasonGiven,
    /// The word was judged invalid though declared valid; the rejecting
    /// rule's note is surfaced.
    CustomReason(Note),
}

/// Mathematical image of a [`PassStatus`].
pub ghost enum PassStatusV {
    Pass,
    Fail(FailKindV),
}

/// Mathematical image of a [`FailKind`].
pub ghost enum FailKindV {
    ShouldBeInvalid,
    NoReasonGiven,
    CustomReason(Seq<char>),
}

impl View for PassStatus {
    type V = PassStatusV;

    open spec fn view(&self) -> PassStatusV {
        match self {
            PassStatus::Pass => PassStatusV::Pass,
            PassStatus::Fail(k) => PassStatusV::Fail(k@),
        }
    }
}

impl View for FailKind {
    type V = FailKindV;

    open spec fn view(&self) -> FailKindV {
        match self {
            FailKind::ShouldBeInvalid => FailKindV::ShouldBeInvalid,
            FailKind::NoReasonGiven => FailKindV::NoReasonGiven,
            FailKind::CustomReason(n) => FailKindV::CustomReason(n@),
        }
    }
}

impl PassStatus {
    /// Returns `true` if self is `Pass`.
    pub fn is_pass(&self) -> (r: bool)
        ensures
            r == (self@ is Pass),
    {
        match self {
            PassStatus::Pass => true,
            PassStatus::Fail(_) => false,
        }
    }

    /// Returns `true` if self is `Fail`.
    pub fn is_fail(&self) -> (r: bool)
        ensures
            r == (self@ is Fail),
    {
        match self {
            PassStatus::Pass => false,
            PassStatus::Fail(_) => true,
        }
    }
}

/// A test passes exactly when the declared intent (`true` = expected
/// invalid) agrees with the verdict; a valid word declared invalid fails
/// as such, and an invalid word declared valid surfaces the rejecting
/// rule's note when there is one.
pub open spec fn spec_status(v: ValidityV, intent: bool) -> PassStatusV {
    if (v is Valid) != intent {
        PassStatusV::Pass
    } else {
        PassStatusV::Fail(
            match v {
                ValidityV::Valid => FailKindV::ShouldBeInvalid,
                ValidityV::Invalid(Some(n)) => FailKindV::CustomReason(n),
                ValidityV::Invalid(None) => FailKindV::NoReasonGiven,
            },
        )
    }
}

/// Classifies a verdict against the test's declared intent.
fn get_status(validity: Validity, intent: bool) -> (r: PassStatus)
    ensures
        r@ == spec_status(validity@, intent),
{
    let is_valid = match &validity {
        Validity::Valid => true,
        Validity::Invalid(_) => false,
    };
    if is_valid != intent {
        PassStatus::Pass
    } else {
        PassStatus::Fail(
            match validity {
                Validity::Valid => FailKind::ShouldBeInvalid,
                Validity::Invalid(Some(reason)) => FailKind::CustomReason(reason),
                Validity::Invalid(None) => FailKind::NoReasonGiven,
            },
        )
    }
}

/// Outcome of one declared test.
#[derive(Debug, Clone, PartialEq, Eq)]
pub struct TestOutcome {
    /// The word that was tested.
    pub word: String,
    /// The declared intent: `true` = the word was expected to be invalid.
    pub intent: bool,
    /// Whether the test passed.
    pub status: PassStatus,
}

/// Mathematical image of a [`TestOutcome`].
pub ghost struct TestOutcomeV {
    pub word: Seq<char>,
    pub intent: bool,
    pub status: PassStatusV,
}

impl View for TestOutcome {
    type V = TestOutcomeV;

    open spec fn view(&self) -> TestOutcomeV {
        TestOutcomeV { word: self.word@, intent: self.intent, status: self.status@ }
    }
}

/// The outcome of one declared test: its word, declared intent, and the
/// status its verdict earned against the rules.
pub open spec fn spec_run_test(t: TestDraftV, rules: Seq<RuleV>) -> TestOutcomeV {
    TestOutcomeV {
        word: t.word,
        intent: t.intent,
        status: spec_status(spec_validate(t.word, rules), t.intent),
    }
}

/// Runs one declared test against the rules.
fn run_test(test: TestDraft, rules: &[Rule]) -> (r: TestOutcome)
    ensures
        r@ == spec_run_test(test@, rules_view(rules@)),
{
    let validity = validate_test(test.word.as_str(), rules);
    let status = get_status(validity, test.intent);
    TestOutcome { intent: test.intent, word: test.word, status }
}

/// The message list after running: informational entries pass through
/// unchanged at their position, each test is resolved against the rules.
pub open spec fn spec_run_messages(msgs: Seq<MessageV<TestDraftV>>, rules: Seq<RuleV>) -> Seq<
    MessageV<TestOutcomeV>,
> {
    msgs.map_values(
        |m: MessageV<TestDraftV>|
            match m {
                MessageV::Info(n) => MessageV::Info(n),
                MessageV::Test(t) => MessageV::Test(spec_run_test(t, rules)),
            },
    )
}

/// How many resolved messages are failed tests.
pub open spec fn spec_fail_count(msgs: Seq<MessageV<TestOutcomeV>>) -> nat
    decreases msgs.len(),
{
    if msgs.len() == 0 {
        0
    } else {
        spec_fail_count(msgs.drop_last()) + (if msgs.last() matches MessageV::Test(t) && t.status
            is Fail {
            1nat
        } else {
            0nat
        })
    }
}

/// Running keeps the message list's shape: the resolved list has the same
/// length, and position by position an entry is informational exactly
/// where the draft's was, with the same text.
pub proof fn lemma_run_preserves_messages(msgs: Seq<MessageV<TestDraftV>>, rules: Seq<RuleV>)
    ensures
        spec_run_messages(msgs, rules).len() == msgs.len(),
        forall|i: int|
            0 <= i < msgs.len() ==> ((msgs[i] is Info <==> #[trigger] spec_run_messages(
                msgs,
                rules,
            )[i] is Info) && (msgs[i] is Info ==> spec_run_messages(msgs, rules)[i]->Info_0
                == msgs[i]->Info_0)),
{
}

/// The verbosity tiers a presentation layer can render an outcome at.
#[derive(Debug, Clone, Copy, PartialEq, Eq, Structural)]
pub enum DisplayLevel {
    /// Show everything: passed and failed tests, and notes.
    ShowAll,
    /// Show failed tests and notes, but not passes.
    IgnorePasses,
    /// Show only failed tests, not passed tests or notes.
    OnlyFails,
    /// Show nothing: no tests and no notes.
    HideAll,
}

impl Default for DisplayLevel {
    /// The tier used when none is asked for.
    fn default() -> (r: Self)
        ensures
            r == DisplayLevel::ShowAll,
    {
        DisplayLevel::ShowAll
    }
}

/// Result of running a draft's declared tests.
#[derive(Debug)]
pub struct Outcome {
    /// The resolved messages, in declaration order.
    pub messages: Vec<Message<TestOutcome>>,
    /// How many tests failed.
    pub fail_count: usize,
}

/// Mathematical image of an [`Outcome`].
pub ghost struct OutcomeV {
    pub messages: Seq<MessageV<TestOutcomeV>>,
    pub fail_count: nat,
}

impl View for Outcome {
    type V = OutcomeV;

    open spec fn view(&self) -> OutcomeV {
        OutcomeV { messages: msgs_view(self.messages@), fail_count: self.fail_count as nat }
    }
}

impl Outcome {
    /// Runs every declared test of the draft, resolving the message list
    /// position by position and counting the failures.
    pub fn run(draft: &Draft) -> (r: Outcome)
        ensures
            r@.messages == spec_run_messages(msgs_view(draft.messages@), rules_view(
                draft.rules@,
            )),
            r@.fail_count == spec_fail_count(r@.messages),
            r.messages@.len() == draft.messages@.len(),
    {
        let ghost rulesv = rules_view(draft.rules@);
        let ghost draft_msgs = msgs_view(draft.messages@);
        let mut list: Vec<Message<TestOutcome>> = Vec::new();
        let mut fail_count: usize = 0;
        let mut i: usize = 0;
        proof {
            assert(msgs_view(list@) =~= spec_run_messages(
                draft_msgs.subrange(0, 0),
                rulesv,
            ));
        }
        while i < draft.messages.len()
            invariant
                i <= draft.messages@.len(),
                rulesv == rules_view(draft.rules@),
                draft_msgs == msgs_view(draft.messages@),
                list@.len() == i,
                fail_count <= i,
                msgs_view(list@) == spec_run_messages(draft_msgs.subrange(0, i as int), rulesv),
                fail_count as nat == spec_fail_count(msgs_view(list@)),
            decreases draft.messages@.len() - i,
        {
            let ghost prev = list@;
            let msg = &draft.messages[i];
            match msg {
                Message::Info(note) => {
                    list.push(Message::Info(Note(note.0.clone())));
                },
                Message::Test(test) => {
                    let outcome = run_test(
                        TestDraft { intent: test.intent, word: test.word.clone() },
                        draft.rules.as_slice(),
                    );
                    if outcome.status.is_fail() {
                        fail_count += 1;
                    }
                    list.push(Message::Test(outcome));
                },
            }
            proof {
                assert(draft_msgs[i as int] == draft.messages@[i as int]@);
                assert(msgs_view(list@) =~= msgs_view(prev).push(list@.last()@));
                assert(draft_msgs.subrange(0, i as int + 1) =~= draft_msgs.subrange(
                    0,
                    i as int,
                ).push(draft_msgs[i as int]));
                assert(spec_run_messages(draft_msgs.subrange(0, i as int + 1), rulesv) =~=
                    spec_run_messages(draft_msgs.subrange(0, i as int), rulesv).push(
                    match draft_msgs[i as int] {
                        MessageV::Info(n) => MessageV::Info(n),
                        MessageV::Test(t) => MessageV::Test(spec_run_test(t, rulesv)),
                    },
                ));
                assert(msgs_view(list@).drop_last() =~= msgs_view(prev));
            }
            i += 1;
        }
        proof {
            assert(draft_msgs.subrange(0, draft_msgs.len() as int) =~= draft_msgs);
        }
        Outcome { messages: list, fail_count }
    }
}

} // verus!
