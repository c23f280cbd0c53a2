//! End-to-end runs of the session state machine against a scripted stand-in
//! for the audio server.

use active_volume::applier::Mutation;
use active_volume::operations::VolumeOp;
use active_volume::session::{Action, ContextState, Event, OperationState, Phase, Session};
use active_volume::sinkinput::SinkInputItem;

fn item(index: u32, prop: Option<&str>, mute: bool, volumes: Vec<u32>) -> SinkInputItem {
    SinkInputItem { index, pid_prop: prop.map(|s| s.to_string()), mute, volumes }
}

/// Drives one whole run: the fake server delivers every `item` on each
/// enumeration, resolves every submitted request as done, and answers a
/// descendant query with `children`. Returns the run's result and every
/// mutation that was submitted, in order.
fn drive(mut s: Session, items: &[SinkInputItem], children: &[u32]) -> (bool, Vec<Mutation>) {
    let mut mutations = Vec::new();
    let mut a = s.step(Event::Context(ContextState::Connecting));
    assert!(matches!(a, Action::Pump));
    a = s.step(Event::Context(ContextState::Ready));
    for _guard in 0..1000 {
        a = match a {
            Action::Enumerate(_pid) => {
                for it in items.iter() {
                    let next = s.step(Event::Item(it.clone()));
                    assert!(matches!(next, Action::Pump));
                }
                s.step(Event::EndOfList)
            }
            Action::Submit(m) => {
                mutations.push(m);
                let polling = s.step(Event::OpState(OperationState::Running));
                assert!(matches!(polling, Action::Pump));
                s.step(Event::OpState(OperationState::Done))
            }
            Action::FetchChildren(_root) => s.step(Event::Descendants(children.to_vec())),
            Action::Finish(ok) => return (ok, mutations),
            Action::Fail => panic!("connection failed"),
            Action::Pump => s.step(Event::Context(ContextState::Ready)),
        };
    }
    panic!("the machine did not finish");
}

fn two_streams_for_100() -> Vec<SinkInputItem> {
    vec![
        item(7, Some("100"), false, vec![100, 200]),
        item(9, Some("200"), false, vec![11, 22]),
        item(8, Some("100"), true, vec![0x10000]),
    ]
}

#[test]
fn toggle_mute_flips_both_matches_and_leaves_volumes_alone() {
    let s = Session::new(100, VolumeOp::ToggleMute, false);
    let (ok, muts) = drive(s, &two_streams_for_100(), &[]);
    assert!(ok);
    assert_eq!(
        muts,
        vec![
            Mutation::SetMute { index: 7, mute: true },
            Mutation::SetMute { index: 8, mute: false },
        ]
    );
}

#[test]
fn change_volume_minus_hundred_percent_drives_every_channel_to_zero() {
    let s = Session::new(100, VolumeOp::ChangeVolume(-100_000), false);
    let (ok, muts) = drive(s, &two_streams_for_100(), &[]);
    assert!(ok);
    assert_eq!(
        muts,
        vec![
            Mutation::SetVolumes { index: 7, volumes: vec![0, 0] },
            Mutation::SetVolumes { index: 8, volumes: vec![0] },
        ]
    );
}

#[test]
fn set_volume_fifty_percent_sets_every_channel_regardless_of_prior_value() {
    let s = Session::new(100, VolumeOp::SetVolume(50_000), false);
    let (ok, muts) = drive(s, &two_streams_for_100(), &[]);
    assert!(ok);
    assert_eq!(
        muts,
        vec![
            Mutation::SetVolumes { index: 7, volumes: vec![32_768, 32_768] },
            Mutation::SetVolumes { index: 8, volumes: vec![32_768] },
        ]
    );
}

#[test]
fn unmatched_pid_without_fallback_reports_failure() {
    let s = Session::new(555, VolumeOp::ToggleMute, false);
    let (ok, muts) = drive(s, &two_streams_for_100(), &[]);
    assert!(!ok);
    assert!(muts.is_empty());
}

#[test]
fn fallback_finds_a_match_under_a_descendant() {
    // The target pid has no stream of its own; its second descendant does.
    let items = vec![
        item(3, Some("600"), false, vec![50]),
        item(4, Some("999"), false, vec![60]),
    ];
    let s = Session::new(500, VolumeOp::ToggleMute, true);
    let (ok, muts) = drive(s, &items, &[700, 600]);
    assert!(ok);
    assert_eq!(muts, vec![Mutation::SetMute { index: 3, mute: true }]);
}

#[test]
fn fallback_scans_every_descendant_even_after_a_match() {
    // Both descendants own a stream: both are mutated, in descendant order.
    let items = vec![
        item(3, Some("600"), false, vec![50]),
        item(4, Some("700"), true, vec![60]),
    ];
    let s = Session::new(500, VolumeOp::ToggleMute, true);
    let (ok, muts) = drive(s, &items, &[600, 700]);
    assert!(ok);
    assert_eq!(
        muts,
        vec![
            Mutation::SetMute { index: 3, mute: true },
            Mutation::SetMute { index: 4, mute: false },
        ]
    );
}

#[test]
fn fallback_with_no_descendants_reports_failure() {
    let s = Session::new(500, VolumeOp::ToggleMute, true);
    let (ok, muts) = drive(s, &two_streams_for_100(), &[]);
    assert!(!ok);
    assert!(muts.is_empty());
}

#[test]
fn fallback_without_any_matching_descendant_reports_failure() {
    let s = Session::new(500, VolumeOp::ToggleMute, true);
    let (ok, muts) = drive(s, &two_streams_for_100(), &[501, 502]);
    assert!(!ok);
    assert!(muts.is_empty());
}

#[test]
fn a_match_on_the_root_skips_the_fallback() {
    // Even with the fallback enabled, a matched root pid means no
    // descendant query is made: the run ends after the root's mutations.
    let s = Session::new(100, VolumeOp::ToggleMute, true);
    let (ok, muts) = drive(s, &two_streams_for_100(), &[600]);
    assert!(ok);
    assert_eq!(muts.len(), 2);
}

#[test]
fn connection_failure_aborts_the_run() {
    let mut s = Session::new(100, VolumeOp::ToggleMute, false);
    let a = s.step(Event::Context(ContextState::Connecting));
    assert!(matches!(a, Action::Pump));
    let a = s.step(Event::Context(ContextState::Failed));
    assert!(matches!(a, Action::Fail));
    assert_eq!(s.phase(), Phase::Failed);
    // the machine stays failed whatever comes in afterwards
    let a = s.step(Event::Context(ContextState::Ready));
    assert!(matches!(a, Action::Fail));
}

#[test]
fn connection_drop_during_enumeration_aborts_the_run() {
    let mut s = Session::new(100, VolumeOp::ToggleMute, false);
    let a = s.step(Event::Context(ContextState::Ready));
    assert!(matches!(a, Action::Enumerate(100)));
    let a = s.step(Event::Item(item(7, Some("100"), false, vec![1])));
    assert!(matches!(a, Action::Pump));
    let a = s.step(Event::Context(ContextState::Terminated));
    assert!(matches!(a, Action::Fail));
    assert_eq!(s.phase(), Phase::Failed);
}

#[test]
fn a_finished_machine_keeps_reporting_its_result() {
    let mut s = Session::new(100, VolumeOp::ToggleMute, false);
    let a = s.step(Event::Context(ContextState::Ready));
    assert!(matches!(a, Action::Enumerate(100)));
    let a = s.step(Event::EndOfList);
    assert!(matches!(a, Action::Finish(false)));
    assert_eq!(s.phase(), Phase::Done);
    assert!(!s.any_matched());
    let a = s.step(Event::Context(ContextState::Ready));
    assert!(matches!(a, Action::Finish(false)));
}
