use wisteria::dependency::{UpdateContext, UpdatePolicy};

const CONTEXTS: [UpdateContext; 4] = [
    UpdateContext::Update,
    UpdateContext::SwitchConfiguration,
    UpdateContext::TaskInvoked,
    UpdateContext::ResolveOnly,
];

fn row(policy: UpdatePolicy) -> [bool; 4] {
    let mut r = [false; 4];
    for (i, c) in CONTEXTS.iter().enumerate() {
        r[i] = policy.should_update(c);
    }
    r
}

#[test]
fn update_table_matches_for_all_pairs() {
    assert_eq!(row(UpdatePolicy::Always), [true, true, true, true]);
    assert_eq!(row(UpdatePolicy::Never), [false, false, false, false]);
    assert_eq!(row(UpdatePolicy::SwitchOrUpdate), [true, true, false, false]);
    assert_eq!(row(UpdatePolicy::UpdateOnly), [true, false, false, false]);
    assert_eq!(row(UpdatePolicy::SwitchOrTask), [false, true, true, false]);
    assert_eq!(row(UpdatePolicy::SwitchConfigurationOnly), [false, true, false, false]);
    assert_eq!(row(UpdatePolicy::TaskOrUpdate), [true, false, true, false]);
    assert_eq!(row(UpdatePolicy::TaskInvokedOnly), [false, false, true, false]);
}

#[test]
fn default_policy_is_switch_or_update() {
    assert_eq!(UpdatePolicy::default(), UpdatePolicy::SwitchOrUpdate);
}
