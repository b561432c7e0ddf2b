use method_rs::request_type::{Kernel, PayloadSchema, RequestType};

#[test]
fn as_str_names_each_route() {
    assert_eq!(RequestType::GET_RESULTS.as_str(), "POST /api/get_results/<job_id>");
    assert_eq!(RequestType::STATES_MEAN.as_str(), "POST /api/states_mean");
    assert_eq!(RequestType::STATE_MEAN.as_str(), "POST /api/state_mean");
    assert_eq!(RequestType::BEST_5.as_str(), "POST /api/best5");
    assert_eq!(RequestType::WORST_5.as_str(), "POST /api/worst5");
    assert_eq!(RequestType::GLOBAL_MEAN.as_str(), "POST /api/global_mean");
    assert_eq!(RequestType::DIFF_FROM_MEAN.as_str(), "POST /api/diff_from_mean");
    assert_eq!(RequestType::STATE_DIFF_FROM_MEAN.as_str(), "POST /api/state_diff_from_mean");
    assert_eq!(RequestType::MEAN_BY_CATEGORY.as_str(), "POST /api/mean_by_category");
    assert_eq!(
        RequestType::STATE_MEAN_BY_CATEGORY.as_str(),
        "POST /api/state_mean_by_category"
    );
}

#[test]
fn kernel_follows_the_dispatch_table() {
    assert_eq!(RequestType::STATES_MEAN.kernel(), Some(Kernel::StatesMean));
    assert_eq!(RequestType::STATE_MEAN.kernel(), Some(Kernel::StateMean));
    assert_eq!(RequestType::BEST_5.kernel(), Some(Kernel::Best5));
    assert_eq!(RequestType::WORST_5.kernel(), Some(Kernel::Worst5));
    assert_eq!(RequestType::GLOBAL_MEAN.kernel(), Some(Kernel::GlobalMean));
    assert_eq!(RequestType::DIFF_FROM_MEAN.kernel(), Some(Kernel::DiffFromMean));
    assert_eq!(RequestType::MEAN_BY_CATEGORY.kernel(), Some(Kernel::MeanByCategory));
    assert_eq!(
        RequestType::STATE_MEAN_BY_CATEGORY.kernel(),
        Some(Kernel::StateMeanByCategory)
    );
    assert_eq!(RequestType::GET_RESULTS.kernel(), None);
    assert_eq!(RequestType::STATE_DIFF_FROM_MEAN.kernel(), None);
}

#[test]
fn schema_asks_for_a_state_where_the_kernel_works_on_one() {
    assert_eq!(Kernel::StateMean.schema(), PayloadSchema::QuestionState);
    assert_eq!(Kernel::StateMeanByCategory.schema(), PayloadSchema::QuestionState);
    assert_eq!(Kernel::StatesMean.schema(), PayloadSchema::Question);
    assert_eq!(Kernel::Best5.schema(), PayloadSchema::Question);
    assert_eq!(Kernel::Worst5.schema(), PayloadSchema::Question);
    assert_eq!(Kernel::GlobalMean.schema(), PayloadSchema::Question);
    assert_eq!(Kernel::DiffFromMean.schema(), PayloadSchema::Question);
    assert_eq!(Kernel::MeanByCategory.schema(), PayloadSchema::Question);
}
