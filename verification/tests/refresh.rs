use iced_layershell::refresh::{
    list_refresh_events, Interaction, Refresh, RefreshEffect, RefreshEvent, RefreshReply, Status,
};

fn viewport(width: u32, height: u32, scale_changed: bool) -> RefreshReply {
    RefreshReply::Viewport { width, height, scale_changed }
}

#[test]
fn first_refresh_builds_and_opens() {
    let (refresh, effects) = Refresh::begin(false, 30, 40);
    assert_eq!(
        effects,
        vec![
            RefreshEffect::UpdateViewport { width: 30, height: 40 },
            RefreshEffect::BuildInterface,
            RefreshEffect::ConfigureSurface,
            RefreshEffect::CompareViewport
        ]
    );
    let mut shown = Interaction::default();
    let (refresh, effects) = refresh.step(viewport(30, 40, false), &mut shown);
    assert_eq!(effects, vec![RefreshEffect::UpdateInterface { opened: true }]);
    let statuses = vec![Status::Captured, Status::Ignored];
    let (refresh, effects) = refresh.step(RefreshReply::Updated { statuses }, &mut shown);
    assert_eq!(
        effects,
        vec![
            RefreshEffect::Broadcast { event: RefreshEvent::Opened, status: Status::Captured },
            RefreshEffect::Broadcast {
                event: RefreshEvent::RedrawRequested,
                status: Status::Ignored
            },
            RefreshEffect::Draw
        ]
    );
    let drawn = RefreshReply::Drawn { interaction: Interaction::Text, pointer: true };
    let (refresh, effects) = refresh.step(drawn, &mut shown);
    assert_eq!(
        effects,
        vec![
            RefreshEffect::SetCursorShape { interaction: Interaction::Text },
            RefreshEffect::Present
        ]
    );
    assert_eq!(shown, Interaction::Text);
    let (refresh, effects) = refresh.step(RefreshReply::Presented, &mut shown);
    assert_eq!(refresh, Refresh::Finished);
    assert!(effects.is_empty());
}

#[test]
fn later_refresh_does_not_build() {
    let (refresh, effects) = Refresh::begin(true, 30, 40);
    assert_eq!(effects, vec![RefreshEffect::CompareViewport]);
    assert_eq!(refresh, Refresh::Comparing { width: 30, height: 40, opened: false });
    assert_eq!(list_refresh_events(false), vec![RefreshEvent::RedrawRequested]);
    assert_eq!(
        list_refresh_events(true),
        vec![RefreshEvent::Opened, RefreshEvent::RedrawRequested]
    );
}

fn refitted(reply: RefreshReply) -> bool {
    let mut shown = Interaction::default();
    let (refresh, _) = Refresh::begin(true, 30, 40);
    let (refresh, effects) = refresh.step(reply, &mut shown);
    assert_eq!(refresh, Refresh::Updating { opened: false });
    assert_eq!(effects.last(), Some(&RefreshEffect::UpdateInterface { opened: false }));
    let refit = vec![
        RefreshEffect::UpdateViewport { width: 30, height: 40 },
        RefreshEffect::Relayout,
        RefreshEffect::ConfigureSurface,
        RefreshEffect::UpdateInterface { opened: false },
    ];
    assert!(effects == refit || effects.len() == 1);
    effects == refit
}

#[test]
fn another_size_or_scale_is_fitted() {
    assert!(!refitted(viewport(30, 40, false)));
    assert!(refitted(viewport(31, 40, false)));
    assert!(refitted(viewport(30, 41, false)));
    assert!(refitted(viewport(30, 40, true)));
}

#[test]
fn missing_status_counts_as_ignored() {
    let mut shown = Interaction::default();
    let updating = Refresh::Updating { opened: true };
    let statuses = vec![Status::Captured];
    let (_, effects) = updating.step(RefreshReply::Updated { statuses }, &mut shown);
    assert_eq!(
        effects[1],
        RefreshEffect::Broadcast { event: RefreshEvent::RedrawRequested, status: Status::Ignored }
    );
    assert_eq!(effects.len(), 3);
}

#[test]
fn cursor_changes_only_with_a_pointer_and_a_new_interaction() {
    let mut shown = Interaction::Text;
    let same = RefreshReply::Drawn { interaction: Interaction::Text, pointer: true };
    let (_, effects) = Refresh::Drawing.step(same, &mut shown);
    assert_eq!(effects, vec![RefreshEffect::Present]);
    let unseen = RefreshReply::Drawn { interaction: Interaction::Grab, pointer: false };
    let (next, effects) = Refresh::Drawing.step(unseen, &mut shown);
    assert_eq!(effects, vec![RefreshEffect::Present]);
    assert_eq!(shown, Interaction::Grab);
    assert_eq!(next, Refresh::Presenting);
}
