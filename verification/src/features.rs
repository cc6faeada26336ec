//! The feature flags of the shell: listing them, and telling whether one is set.

use libc::c_int;
use vstd::prelude::*;

use crate::messages::Messages;
use crate::printf::{arg_views, formatted, sprintf, Arg, FormatArg};
use crate::streams::{IoStreams, Written};
use crate::text;
use crate::text::same;

verus! {

/// A feature flag of the shell.
#[derive(Debug)]
pub struct Feature {
    pub name: String,
    pub groups: String,
    pub description: String,
    /// Whether the flag is set.
    pub enabled: bool,
}

/// What there is to say of a feature that is asked for.
#[allow(non_camel_case_types)]
#[derive(Clone, Copy, Debug, PartialEq, Eq, Structural)]
pub enum TestFeatureRetVal {
    /// It is set.
    TEST_FEATURE_ON,
    /// It is not set.
    TEST_FEATURE_OFF,
    /// There is no such feature.
    TEST_FEATURE_NOT_RECOGNIZED,
}

impl TestFeatureRetVal {
    /// The exit code by which it is said.
    pub open spec fn exit_code(self) -> c_int {
        match self {
            TestFeatureRetVal::TEST_FEATURE_ON => 0,
            TestFeatureRetVal::TEST_FEATURE_OFF => 1,
            TestFeatureRetVal::TEST_FEATURE_NOT_RECOGNIZED => 2,
        }
    }

    /// The exit code by which it is said.
    pub fn code(&self) -> (r: c_int)
        ensures
            r == self.exit_code(),
    {
        match self {
            TestFeatureRetVal::TEST_FEATURE_ON => 0,
            TestFeatureRetVal::TEST_FEATURE_OFF => 1,
            TestFeatureRetVal::TEST_FEATURE_NOT_RECOGNIZED => 2,
        }
    }
}

/// The length of the longest name.
pub open spec fn longest_name(features: Seq<Feature>) -> nat
    decreases features.len(),
{
    if features.len() == 0 {
        0
    } else {
        let others = longest_name(features.drop_last());
        let len = features.last().name@.len();
        if len > others {
            len
        } else {
            others
        }
    }
}

/// The line that tells of one feature: its name in a column of the given width, whether it is
/// set, its groups and its description.
pub open spec fn feature_line(messages: Messages, feature: Feature, width: nat) -> Seq<char> {
    let set = if feature.enabled {
        "on"@
    } else {
        "off"@
    };
    formatted(
        messages.feature_line@,
        seq![
            Arg::Number(width as int),
            Arg::Text(feature.name@),
            Arg::Text(set),
            Arg::Text(feature.groups@),
            Arg::Text(feature.description@),
        ],
    )
}

/// The lines that tell of the features, in their order.
pub open spec fn feature_lines(messages: Messages, features: Seq<Feature>, width: nat) -> Seq<char>
    decreases features.len(),
{
    if features.len() == 0 {
        seq![]
    } else {
        feature_lines(messages, features.drop_last(), width) + feature_line(
            messages,
            features.last(),
            width,
        )
    }
}

/// The list of the features: the column of the names is one wider than the longest of them.
pub open spec fn feature_list(messages: Messages, features: Seq<Feature>) -> Seq<char> {
    feature_lines(messages, features, longest_name(features) + 1)
}

/// Whether the feature called `name` is set; of several, the last one counts.
pub open spec fn feature_state(features: Seq<Feature>, name: Seq<char>) -> TestFeatureRetVal
    decreases features.len(),
{
    if features.len() == 0 {
        TestFeatureRetVal::TEST_FEATURE_NOT_RECOGNIZED
    } else if features.last().name@ == name {
        if features.last().enabled {
            TestFeatureRetVal::TEST_FEATURE_ON
        } else {
            TestFeatureRetVal::TEST_FEATURE_OFF
        }
    } else {
        feature_state(features.drop_last(), name)
    }
}

/// Composes the line that tells of one feature; the column of the names is one wider than
/// `max_len`.
fn feature_line_text(messages: &Messages, feature: &Feature, max_len: usize) -> (r: String)
    ensures
        r@ == feature_line(*messages, *feature, (max_len + 1) as nat),
{
    let set: &str = if feature.enabled {
        "on"
    } else {
        "off"
    };
    let args = vec![
        FormatArg::Count(max_len as u128 + 1),
        FormatArg::Text(feature.name.as_str()),
        FormatArg::Text(set),
        FormatArg::Text(feature.groups.as_str()),
        FormatArg::Text(feature.description.as_str()),
    ];
    assert(arg_views(args@) =~= seq![
        Arg::Number(max_len + 1),
        Arg::Text(feature.name@),
        Arg::Text(set@),
        Arg::Text(feature.groups@),
        Arg::Text(feature.description@),
    ]);
    sprintf(messages.feature_line.as_str(), &args)
}

/// Prints the features and their values.
pub fn print_features(streams: &mut IoStreams, messages: &Messages, features: &Vec<Feature>)
    ensures
        final(streams)@ == old(streams)@.plus(
            Written::on_out(feature_list(*messages, features@)),
        ),
{
    let mut max_len: usize = 0;
    let mut i: usize = 0;
    while i < features.len()
        invariant
            i <= features@.len(),
            max_len == longest_name(features@.take(i as int)),
        decreases features@.len() - i,
    {
        let len: usize = features[i].name.as_str().unicode_len();
        if len > max_len {
            max_len = len;
        }
        assert(features@.take(i + 1).drop_last() =~= features@.take(i as int));
        i = i + 1;
    }
    assert(features@.take(i as int) =~= features@);
    let mut list = String::new();
    i = 0;
    while i < features.len()
        invariant
            i <= features@.len(),
            list@ == feature_lines(*messages, features@.take(i as int), (max_len + 1) as nat),
        decreases features@.len() - i,
    {
        list.append(feature_line_text(messages, &features[i], max_len).as_str());
        assert(features@.take(i + 1).drop_last() =~= features@.take(i as int));
        i = i + 1;
    }
    assert(features@.take(i as int) =~= features@);
    streams.append_out(list.as_str());
}

/// Tells whether the feature called `name` is set.
pub fn test_feature(features: &Vec<Feature>, name: &str) -> (r: TestFeatureRetVal)
    ensures
        r == feature_state(features@, name@),
{
    let mut state: TestFeatureRetVal = TestFeatureRetVal::TEST_FEATURE_NOT_RECOGNIZED;
    let mut i: usize = 0;
    while i < features.len()
        invariant
            i <= features@.len(),
            state == feature_state(features@.take(i as int), name@),
        decreases features@.len() - i,
    {
        if same(features[i].name.as_str(), name) {
            state = if features[i].enabled {
                TestFeatureRetVal::TEST_FEATURE_ON
            } else {
                TestFeatureRetVal::TEST_FEATURE_OFF
            };
        }
        assert(features@.take(i + 1).drop_last() =~= features@.take(i as int));
        i = i + 1;
    }
    assert(features@.take(i as int) =~= features@);
    state
}

/// A feature is recognized exactly if the list holds it; where its name occurs once, the answer
/// is whether it is set.
pub proof fn law_features_are_recognized(features: Seq<Feature>, name: Seq<char>)
    ensures
        feature_state(features, name) != TestFeatureRetVal::TEST_FEATURE_NOT_RECOGNIZED
            <==> exists|i: int| 0 <= i < features.len() && (#[trigger] features[i]).name@ == name,
        forall|i: int|
            0 <= i < features.len() && (#[trigger] features[i]).name@ == name && (forall|j: int|
                0 <= j < features.len() && (#[trigger] features[j]).name@ == name ==> i == j)
                ==> feature_state(features, name) == if features[i].enabled {
                TestFeatureRetVal::TEST_FEATURE_ON
            } else {
                TestFeatureRetVal::TEST_FEATURE_OFF
            },
    decreases features.len(),
{
    if features.len() > 0 {
        let n = features.len() as int;
        let others = features.drop_last();
        law_features_are_recognized(others, name);
        assert(forall|i: int| 0 <= i < n - 1 ==> #[trigger] others[i] == features[i]);
        assert(features[n - 1] == features.last());
        if features.last().name@ != name {
            if feature_state(others, name) != TestFeatureRetVal::TEST_FEATURE_NOT_RECOGNIZED {
                let i = choose|i: int|
                    0 <= i < others.len() && (#[trigger] others[i]).name@ == name;
                assert(features[i].name@ == name);
            }
            if exists|i: int| 0 <= i < n && (#[trigger] features[i]).name@ == name {
                let i = choose|i: int| 0 <= i < n && (#[trigger] features[i]).name@ == name;
                assert(others[i].name@ == name);
            }
            assert forall|i: int|
                0 <= i < n && (#[trigger] features[i]).name@ == name && (forall|j: int|
                    0 <= j < n && (#[trigger] features[j]).name@ == name ==> i == j) implies
                feature_state(features, name) == if features[i].enabled {
                TestFeatureRetVal::TEST_FEATURE_ON
            } else {
                TestFeatureRetVal::TEST_FEATURE_OFF
            } by {
                assert(others[i].name@ == name);
                assert forall|j: int|
                    0 <= j < others.len() && (#[trigger] others[j]).name@ == name implies i
                    == j by {
                    assert(features[j].name@ == name);
                }
            }
        }
    }
}

/// The names in the list are never longer than their column, and at least one blank follows
/// each: the columns of all lines begin at the same place.
pub proof fn law_columns_align(features: Seq<Feature>, i: int)
    requires
        0 <= i < features.len(),
    ensures
        features[i].name@.len() <= longest_name(features),
        text::padded(features[i].name@, longest_name(features) + 1).len() == longest_name(features)
            + 1,
        text::padded(features[i].name@, longest_name(features) + 1).last() == ' ',
    decreases features.len(),
{
    if i < features.len() - 1 {
        law_columns_align(features.drop_last(), i);
    }
}

/// The list of no features is empty, and one more feature adds its line at the end.
pub proof fn law_one_more_feature_one_more_line(
    messages: Messages,
    features: Seq<Feature>,
    feature: Feature,
    width: nat,
)
    ensures
        feature_lines(messages, seq![], width) == Seq::<char>::empty(),
        feature_lines(messages, features.push(feature), width) == feature_lines(
            messages,
            features,
            width,
        ) + feature_line(messages, feature, width),
{
    assert(features.push(feature).drop_last() =~= features);
}

/// The list of the features is made of the line of each, in their order.
pub proof fn law_every_feature_has_its_line(messages: Messages, features: Seq<Feature>)
    ensures
        feature_list(messages, features) == Seq::new(
            features.len(),
            |i: int| feature_line(messages, features[i], longest_name(features) + 1),
        ).flatten(),
{
    lemma_lines_are_flat(messages, features, longest_name(features) + 1);
}

proof fn lemma_lines_are_flat(messages: Messages, features: Seq<Feature>, width: nat)
    ensures
        feature_lines(messages, features, width) == Seq::new(
            features.len(),
            |i: int| feature_line(messages, features[i], width),
        ).flatten(),
    decreases features.len(),
{
    let lines = Seq::new(features.len(), |i: int| feature_line(messages, features[i], width));
    if features.len() == 0 {
        assert(lines.flatten() =~= seq![]);
    } else {
        let others = features.drop_last();
        let before = Seq::new(others.len(), |i: int| feature_line(messages, others[i], width));
        lemma_lines_are_flat(messages, others, width);
        assert(lines.drop_last() =~= before);
        lines.lemma_flatten_and_flatten_alt_are_equivalent();
        before.lemma_flatten_and_flatten_alt_are_equivalent();
    }
}

/// The longest name is as long as one of the names, and no shorter than any.
pub proof fn law_longest_name(features: Seq<Feature>)
    ensures
        forall|i: int|
            0 <= i < features.len() ==> (#[trigger] features[i]).name@.len() <= longest_name(
                features,
            ),
        features.len() > 0 ==> exists|i: int|
            0 <= i < features.len() && (#[trigger] features[i]).name@.len() == longest_name(
                features,
            ),
    decreases features.len(),
{
    if features.len() > 0 {
        let others = features.drop_last();
        law_longest_name(others);
        assert(forall|i: int|
            0 <= i < others.len() ==> #[trigger] features[i] == others[i]);
        assert(features[features.len() - 1] == features.last());
        if features.last().name@.len() <= longest_name(others) && others.len() > 0 {
            let i = choose|i: int|
                0 <= i < others.len() && (#[trigger] others[i]).name@.len() == longest_name(
                    others,
                );
            assert(features[i].name@.len() == longest_name(features));
        }
    }
}

/// The exit codes by which the question about a feature is answered.
pub proof fn law_feature_codes(state: TestFeatureRetVal)
    ensures
        state.exit_code() == 0 <==> state == TestFeatureRetVal::TEST_FEATURE_ON,
        state.exit_code() == 1 <==> state == TestFeatureRetVal::TEST_FEATURE_OFF,
        state.exit_code() == 2 <==> state == TestFeatureRetVal::TEST_FEATURE_NOT_RECOGNIZED,
{
}

/// Of several features of one name the last one counts.
pub proof fn law_last_feature_counts(features: Seq<Feature>, name: Seq<char>, i: int)
    requires
        0 <= i < features.len(),
        features[i].name@ == name,
        forall|j: int| i < j < features.len() ==> (#[trigger] features[j]).name@ != name,
    ensures
        feature_state(features, name).exit_code() == if features[i].enabled {
            0i32
        } else {
            1i32
        },
    decreases features.len(),
{
    if i < features.len() - 1 {
        assert(features.last() == features[features.len() - 1]);
        law_last_feature_counts(features.drop_last(), name, i);
    }
}

} // verus!
