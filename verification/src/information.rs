//! The information that tells what an event is about.

use vstd::prelude::*;
use vstd::string::StrSliceExecFns;

use crate::error::{Error, Violation};
use crate::text::{str_eq, strings_view};

verus! {

/// Most characters that a title may hold.
pub const MAX_TITLE_LENGTH: usize = 256;

/// Most characters that a description may hold.
pub const MAX_DESCRIPTION_LENGTH: usize = 10240;

/// Most characters that the title of one outcome may hold.
pub const MAX_OUTCOME_TITLE_LENGTH: usize = 64;

/// The variant without data, for barebones events.
#[derive(Debug, Clone, Copy, PartialEq, Eq, Hash)]
pub struct Empty;

impl Empty {
    /// Identifier of the variant.
    pub const ID: &'static str = "empty";
}

/// First version of descriptive information.
#[derive(Debug, Clone, PartialEq, Eq, Hash)]
pub struct V1 {
    pub title: String,
    pub description: String,
    /// One title per outcome, by outcome index.
    pub outcome_titles: Vec<String>,
    /// When the payout is expected. Advisory only.
    pub expected_payout_unix_seconds: u64,
}

/// Mathematical value of a [`V1`].
pub ghost struct V1View {
    pub title: Seq<char>,
    pub description: Seq<char>,
    pub outcome_titles: Seq<Seq<char>>,
    pub expected_payout_unix_seconds: u64,
}

impl View for V1 {
    type V = V1View;

    open spec fn view(&self) -> V1View {
        V1View {
            title: self.title@,
            description: self.description@,
            outcome_titles: strings_view(self.outcome_titles@),
            expected_payout_unix_seconds: self.expected_payout_unix_seconds,
        }
    }
}

/// Index of the first title at or behind `from` that is too long, or the
/// number of titles where there is none.
pub open spec fn first_long_title(titles: Seq<Seq<char>>, from: int) -> int
    decreases titles.len() - from,
{
    if from < 0 || from >= titles.len() {
        titles.len() as int
    } else if titles[from].len() > MAX_OUTCOME_TITLE_LENGTH {
        from
    } else {
        first_long_title(titles, from + 1)
    }
}

impl V1View {
    /// The first rule that this information breaks for an event with
    /// `outcomes` outcomes, if it breaks one.
    pub open spec fn violation(self, outcomes: u16) -> Option<Violation> {
        if self.title.len() > MAX_TITLE_LENGTH {
            Some(Violation::TitleTooLong)
        } else if self.description.len() > MAX_DESCRIPTION_LENGTH {
            Some(Violation::DescriptionTooLong)
        } else if self.outcome_titles.len() != outcomes {
            Some(Violation::OutcomeTitleCount)
        } else if first_long_title(self.outcome_titles, 0) < self.outcome_titles.len() {
            Some(Violation::OutcomeTitleTooLong(first_long_title(self.outcome_titles, 0) as usize))
        } else {
            None
        }
    }
}

impl V1 {
    /// Identifier of the variant.
    pub const ID: &'static str = "v1";

    /// Checks the lengths of the texts, and that there is one outcome title
    /// per outcome. Reports the first rule that is broken.
    pub fn validate(&self, outcomes: u16) -> (r: Result<(), Error>)
        ensures
            r == match self@.violation(outcomes) {
                Some(v) => Err::<(), Error>(Error::Validation(v)),
                None => Ok(()),
            },
    {
        if self.title.as_str().unicode_len() > MAX_TITLE_LENGTH {
            return Err(Error::Validation(Violation::TitleTooLong));
        }
        if self.description.as_str().unicode_len() > MAX_DESCRIPTION_LENGTH {
            return Err(Error::Validation(Violation::DescriptionTooLong));
        }
        if self.outcome_titles.len() != outcomes as usize {
            return Err(Error::Validation(Violation::OutcomeTitleCount));
        }
        let mut i: usize = 0;
        while i < self.outcome_titles.len()
            invariant
                i <= self.outcome_titles.len(),
                self@.title.len() <= MAX_TITLE_LENGTH,
                self@.description.len() <= MAX_DESCRIPTION_LENGTH,
                self@.outcome_titles.len() == outcomes,
                first_long_title(self@.outcome_titles, 0) == first_long_title(
                    self@.outcome_titles,
                    i as int,
                ),
            decreases self.outcome_titles.len() - i,
        {
            assert(self@.outcome_titles[i as int] == self.outcome_titles@[i as int]@);
            if self.outcome_titles[i].as_str().unicode_len() > MAX_OUTCOME_TITLE_LENGTH {
                return Err(Error::Validation(Violation::OutcomeTitleTooLong(i)));
            }
            i += 1;
        }
        Ok(())
    }
}

/// What an event is about. Each variant has a stable identifier by which
/// callers say which variants they accept.
#[derive(Debug, Clone, PartialEq, Eq, Hash)]
pub enum Information {
    Empty,
    V1(V1),
}

/// Mathematical value of an [`Information`].
pub ghost enum InformationView {
    Empty,
    V1(V1View),
}

impl View for Information {
    type V = InformationView;

    open spec fn view(&self) -> InformationView {
        match self {
            Information::Empty => InformationView::Empty,
            Information::V1(v) => InformationView::V1(v@),
        }
    }
}

/// Whether `id` is one of `accepted`.
pub open spec fn accepts(accepted: Seq<&str>, id: Seq<char>) -> bool {
    exists|i: int| 0 <= i < accepted.len() && (#[trigger] accepted[i])@ == id
}

/// Decides whether `id` is one of `accepted`.
pub fn is_accepted(accepted: &[&str], id: &str) -> (r: bool)
    ensures
        r == accepts(accepted@, id@),
{
    let mut i: usize = 0;
    while i < accepted.len()
        invariant
            i <= accepted.len(),
            forall|j: int| 0 <= j < i ==> (#[trigger] accepted@[j])@ != id@,
        decreases accepted.len() - i,
    {
        if str_eq(accepted[i], id) {
            return true;
        }
        i += 1;
    }
    false
}

impl InformationView {
    /// Identifier of the variant.
    pub open spec fn variant_id(self) -> Seq<char> {
        match self {
            InformationView::Empty => Empty::ID@,
            InformationView::V1(_) => V1::ID@,
        }
    }

    /// The first rule that this information breaks, if it breaks one: its
    /// variant must be accepted, and then its own rules hold.
    pub open spec fn violation(self, accepted: Seq<&str>, outcome_count: u16) -> Option<Violation> {
        if !accepts(accepted, self.variant_id()) {
            Some(Violation::VariantNotAccepted)
        } else {
            match self {
                InformationView::Empty => None,
                InformationView::V1(v) => v.violation(outcome_count),
            }
        }
    }
}

impl Information {
    /// The identifiers of all variants. Given to [`Information::validate`],
    /// it accepts any information.
    pub const ALL_VARIANT_IDS: [&'static str; 2] = [Empty::ID, V1::ID];

    /// Identifier of the variant.
    pub fn information_variant_id(&self) -> (id: &'static str)
        ensures
            id@ == self@.variant_id(),
    {
        match self {
            Information::Empty => Empty::ID,
            Information::V1(_) => V1::ID,
        }
    }

    /// Checks that the variant is one of `accepted_information_variant_ids`,
    /// then the variant's own rules. Reports the first rule that is broken.
    pub fn validate(
        &self,
        accepted_information_variant_ids: &[&str],
        outcome_count: u16,
        _units_to_payout: u32,
    ) -> (r: Result<(), Error>)
        ensures
            r == match self@.violation(accepted_information_variant_ids@, outcome_count) {
                Some(v) => Err::<(), Error>(Error::Validation(v)),
                None => Ok(()),
            },
    {
        if !is_accepted(accepted_information_variant_ids, self.information_variant_id()) {
            return Err(Error::Validation(Violation::VariantNotAccepted));
        }
        match self {
            Information::Empty => Ok(()),
            Information::V1(v) => v.validate(outcome_count),
        }
    }
}

} // verus!
