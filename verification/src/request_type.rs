use vstd::prelude::*;

verus! {

/// The kinds of request the server knows by name.
#[allow(non_camel_case_types)]
#[derive(Clone, Copy, PartialEq, Eq, Structural, Debug)]
pub enum RequestType {
    GET_RESULTS,
    STATES_MEAN,
    STATE_MEAN,
    BEST_5,
    WORST_5,
    GLOBAL_MEAN,
    DIFF_FROM_MEAN,
    STATE_DIFF_FROM_MEAN,
    MEAN_BY_CATEGORY,
    STATE_MEAN_BY_CATEGORY,
}

/// What a job's payload must hold for its kind.
#[derive(Clone, Copy, PartialEq, Eq, Structural, Debug)]
pub enum PayloadSchema {
    /// `{question}`
    Question,
    /// `{question, state}`
    QuestionState,
}

/// The reductions a worker can run.
#[derive(Clone, Copy, PartialEq, Eq, Structural, Debug)]
pub enum Kernel {
    StatesMean,
    StateMean,
    Best5,
    Worst5,
    GlobalMean,
    DiffFromMean,
    MeanByCategory,
    StateMeanByCategory,
}

impl RequestType {
    /// The route a kind is logged under.
    pub open spec fn route(self) -> Seq<char> {
        match self {
            RequestType::GET_RESULTS => "POST /api/get_results/<job_id>"@,
            RequestType::STATES_MEAN => "POST /api/states_mean"@,
            RequestType::STATE_MEAN => "POST /api/state_mean"@,
            RequestType::BEST_5 => "POST /api/best5"@,
            RequestType::WORST_5 => "POST /api/worst5"@,
            RequestType::GLOBAL_MEAN => "POST /api/global_mean"@,
            RequestType::DIFF_FROM_MEAN => "POST /api/diff_from_mean"@,
            RequestType::STATE_DIFF_FROM_MEAN => "POST /api/state_diff_from_mean"@,
            RequestType::MEAN_BY_CATEGORY => "POST /api/mean_by_category"@,
            RequestType::STATE_MEAN_BY_CATEGORY => "POST /api/state_mean_by_category"@,
        }
    }

    /// The kernel that serves a kind, if any does.
    pub open spec fn kernel_of(self) -> Option<Kernel> {
        match self {
            RequestType::STATES_MEAN => Some(Kernel::StatesMean),
            RequestType::STATE_MEAN => Some(Kernel::StateMean),
            RequestType::BEST_5 => Some(Kernel::Best5),
            RequestType::WORST_5 => Some(Kernel::Worst5),
            RequestType::GLOBAL_MEAN => Some(Kernel::GlobalMean),
            RequestType::DIFF_FROM_MEAN => Some(Kernel::DiffFromMean),
            RequestType::MEAN_BY_CATEGORY => Some(Kernel::MeanByCategory),
            RequestType::STATE_MEAN_BY_CATEGORY => Some(Kernel::StateMeanByCategory),
            RequestType::GET_RESULTS => None,
            RequestType::STATE_DIFF_FROM_MEAN => None,
        }
    }

    /// The route that a kind is logged under.
    pub fn as_str(&self) -> (name: &'static str)
        ensures
            name@ == self.route(),
    {
        match self {
            RequestType::GET_RESULTS => "POST /api/get_results/<job_id>",
            RequestType::STATES_MEAN => "POST /api/states_mean",
            RequestType::STATE_MEAN => "POST /api/state_mean",
            RequestType::BEST_5 => "POST /api/best5",
            RequestType::WORST_5 => "POST /api/worst5",
            RequestType::GLOBAL_MEAN => "POST /api/global_mean",
            RequestType::DIFF_FROM_MEAN => "POST /api/diff_from_mean",
            RequestType::STATE_DIFF_FROM_MEAN => "POST /api/state_diff_from_mean",
            RequestType::MEAN_BY_CATEGORY => "POST /api/mean_by_category",
            RequestType::STATE_MEAN_BY_CATEGORY => "POST /api/state_mean_by_category",
        }
    }

    /// Picks the kernel for a kind; `None` for a kind that no worker serves.
    pub fn kernel(&self) -> (k: Option<Kernel>)
        ensures
            k == self.kernel_of(),
    {
        match self {
            RequestType::STATES_MEAN => Some(Kernel::StatesMean),
            RequestType::STATE_MEAN => Some(Kernel::StateMean),
            RequestType::BEST_5 => Some(Kernel::Best5),
            RequestType::WORST_5 => Some(Kernel::Worst5),
            RequestType::GLOBAL_MEAN => Some(Kernel::GlobalMean),
            RequestType::DIFF_FROM_MEAN => Some(Kernel::DiffFromMean),
            RequestType::MEAN_BY_CATEGORY => Some(Kernel::MeanByCategory),
            RequestType::STATE_MEAN_BY_CATEGORY => Some(Kernel::StateMeanByCategory),
            RequestType::GET_RESULTS => None,
            RequestType::STATE_DIFF_FROM_MEAN => None,
        }
    }
}

impl Kernel {
    /// A kernel that works on one state needs the state in its payload.
    pub open spec fn schema_of(self) -> PayloadSchema {
        match self {
            Kernel::StateMean => PayloadSchema::QuestionState,
            Kernel::StateMeanByCategory => PayloadSchema::QuestionState,
            _ => PayloadSchema::Question,
        }
    }

    /// What the payload of a job for this kernel must hold.
    pub fn schema(&self) -> (s: PayloadSchema)
        ensures
            s == self.schema_of(),
    {
        match self {
            Kernel::StateMean => PayloadSchema::QuestionState,
            Kernel::StateMeanByCategory => PayloadSchema::QuestionState,
            _ => PayloadSchema::Question,
        }
    }
}

} // verus!
