use install_wheel::cache_clean::{
    bytes_shown, plain_bytes, plan_cache_clean, removal_summary, temp_cache_name, when_in_use,
    BytesShown, CleanPlan, WhenInUse,
};
use install_wheel::limits::{limit_after, plan_open_file_limit, LimitPlan};

#[test]
fn soft_limit_is_raised_to_the_hard_limit() {
    assert_eq!(plan_open_file_limit(None), LimitPlan::Keep(0));
    assert_eq!(plan_open_file_limit(Some((1024, 1024))), LimitPlan::Keep(1024));
    assert_eq!(plan_open_file_limit(Some((4096, 1024))), LimitPlan::Keep(4096));
    let plan = plan_open_file_limit(Some((1024, 1048576)));
    assert_eq!(plan, LimitPlan::Raise { from: 1024, to: 1048576 });
    assert_eq!(limit_after(plan, true), 1048576);
    assert_eq!(limit_after(plan, false), 1024);
    assert_eq!(limit_after(LimitPlan::Keep(7), true), 7);
    assert_eq!(limit_after(LimitPlan::Keep(0), false), 0);
}

#[test]
fn cache_is_cleared_as_asked() {
    assert_eq!(plan_cache_clean(false, false, 0), CleanPlan::NoCache);
    assert_eq!(plan_cache_clean(false, true, 3), CleanPlan::NoCache);
    assert_eq!(plan_cache_clean(true, true, 1), CleanPlan::BackgroundWithPackages);
    assert_eq!(plan_cache_clean(true, true, 0), CleanPlan::Background);
    assert_eq!(plan_cache_clean(true, false, 0), CleanPlan::ClearAll);
    assert_eq!(plan_cache_clean(true, false, 2), CleanPlan::RemovePackages);
    assert_eq!(when_in_use(true), WhenInUse::Proceed);
    assert_eq!(when_in_use(false), WhenInUse::Wait);
}

#[test]
fn removal_is_summed_up() {
    assert_eq!(removal_summary(0, 0), "No cache entries found");
    assert_eq!(removal_summary(0, 1), "Removed 1 directory");
    assert_eq!(removal_summary(0, 12), "Removed 12 directories");
    assert_eq!(removal_summary(1, 0), "Removed 1 file");
    assert_eq!(removal_summary(1, 5), "Removed 1 file");
    assert_eq!(removal_summary(2, 0), "Removed 2 files");
    assert_eq!(removal_summary(1234, 56), "Removed 1234 files");
    assert_eq!(bytes_shown(0), BytesShown::Hidden);
    assert_eq!(bytes_shown(1), BytesShown::Plain);
    assert_eq!(bytes_shown(1023), BytesShown::Plain);
    assert_eq!(bytes_shown(1024), BytesShown::Scaled);
    assert_eq!(plain_bytes(1023), "1023B");
    assert_eq!(plain_bytes(1), "1B");
    assert_eq!(
        temp_cache_name("0f8fad5b-d9cb-469f-a165-70867728950e"),
        ".uv-cache-clean-0f8fad5b-d9cb-469f-a165-70867728950e"
    );
}
