use mangafeed::dispatcher::{
    one_shot_step, Action, CoreMessage, Dispatcher, OneShotEvent, OneShotPhase, Worker,
};
use mangafeed::gofer::{gofer_step, run_gofer, GoferEvent, GoferPhase};
use mangafeed::structs::Server;

fn server(id: &str) -> Server {
    Server {
        identifier: String::from(id),
        feed_channel_identifier: String::from("channel"),
    }
}

#[test]
fn second_fetch_trigger_is_rejected_until_completion() {
    let mut d = Dispatcher::new();
    let acts = d.handle_message(CoreMessage::StartGofer(false));
    assert_eq!(acts.len(), 1);
    assert!(matches!(acts[0], Action::SpawnGofer));
    assert_eq!(d.tracker.len(), 1);

    // A second trigger while the worker is tracked spawns nothing.
    let acts = d.handle_message(CoreMessage::StartGofer(false));
    assert_eq!(acts.len(), 0);
    assert_eq!(d.tracker.len(), 1);

    // Completion clears the slot; the next trigger spawns again.
    d.handle_worker_finished(&Worker::Gofer);
    assert_eq!(d.tracker.len(), 0);
    let acts = d.handle_message(CoreMessage::StartGofer(false));
    assert_eq!(acts.len(), 1);
    assert!(matches!(acts[0], Action::SpawnGofer));
}

#[test]
fn solo_announcers_run_per_destination() {
    let mut d = Dispatcher::new();
    d.handle_message(CoreMessage::TransferDiscordHttp);

    let acts = d.handle_message(CoreMessage::StartSoloAnnouncer(server("a")));
    assert_eq!(acts.len(), 1);
    // A different destination spawns concurrently.
    let acts = d.handle_message(CoreMessage::StartSoloAnnouncer(server("b")));
    assert_eq!(acts.len(), 1);
    assert_eq!(d.tracker.len(), 2);
    // The same destination again is rejected while tracked.
    let acts = d.handle_message(CoreMessage::StartSoloAnnouncer(server("a")));
    assert_eq!(acts.len(), 0);
    assert_eq!(d.tracker.len(), 2);

    d.handle_worker_finished(&Worker::SoloAnnouncer(server("a")));
    assert_eq!(d.tracker.len(), 1);
    let acts = d.handle_message(CoreMessage::StartSoloAnnouncer(server("a")));
    assert_eq!(acts.len(), 1);
}

#[test]
fn announcers_need_a_delivery_connection() {
    let mut d = Dispatcher::new();
    let acts = d.handle_message(CoreMessage::StartAnnouncer);
    assert_eq!(acts.len(), 0);
    d.handle_message(CoreMessage::TransferDiscordHttp);
    let acts = d.handle_message(CoreMessage::StartAnnouncer);
    assert_eq!(acts.len(), 1);
    assert!(matches!(acts[0], Action::SpawnAnnouncer));
}

#[test]
fn gofer_completion_chains_into_announce() {
    let mut d = Dispatcher::new();
    d.handle_message(CoreMessage::TransferDiscordHttp);
    d.handle_message(CoreMessage::StartGofer(true));
    let acts = d.handle_worker_finished(&Worker::Gofer);
    assert_eq!(acts.len(), 1);
    assert!(matches!(acts[0], Action::EmitStartAnnouncer));
    // The chain flag is consumed.
    d.handle_message(CoreMessage::StartGofer(false));
    let acts = d.handle_worker_finished(&Worker::Gofer);
    assert_eq!(acts.len(), 0);
}

#[test]
fn bot_exit_drops_handle_and_reconnects() {
    let mut d = Dispatcher::new();
    d.handle_message(CoreMessage::StartDiscordBot);
    d.handle_message(CoreMessage::TransferDiscordHttp);
    assert!(d.discord_ready);
    let acts = d.handle_worker_finished(&Worker::DiscordBot);
    assert_eq!(acts.len(), 1);
    assert!(matches!(acts[0], Action::EmitStartDiscordBot));
    assert!(!d.discord_ready);
    // Without the handle, announce triggers are rejected again.
    let acts = d.handle_message(CoreMessage::StartAnnouncer);
    assert_eq!(acts.len(), 0);
}

#[test]
fn quit_stops_every_further_trigger() {
    let mut d = Dispatcher::new();
    let acts = d.handle_message(CoreMessage::Quit);
    assert_eq!(acts.len(), 1);
    assert!(matches!(acts[0], Action::Shutdown));
    let acts = d.handle_message(CoreMessage::StartGofer(true));
    assert_eq!(acts.len(), 0);
    assert_eq!(d.tracker.len(), 0);
}

#[test]
fn worker_labels() {
    assert_eq!(Worker::Gofer.label(), "Gofer");
    assert_eq!(Worker::Announcer.label(), "Announcer");
    assert_eq!(Worker::DiscordBot.label(), "Discord Bot");
    assert_eq!(Worker::SoloAnnouncer(server("g1")).label(), "Solo Announcer for g1");
}

#[test]
fn one_shot_runs_stages_in_order() {
    let p = OneShotPhase::AwaitDiscord;
    let (p, act) = one_shot_step(&p, &OneShotEvent::DiscordReady);
    assert!(matches!(p, OneShotPhase::AwaitGofer));
    assert!(matches!(act, Some(Action::SpawnGofer)));
    let (p, act) = one_shot_step(&p, &OneShotEvent::WorkerFinished(Worker::Gofer));
    assert!(matches!(p, OneShotPhase::AwaitAnnouncer));
    assert!(matches!(act, Some(Action::SpawnAnnouncer)));
    let (p, act) = one_shot_step(&p, &OneShotEvent::WorkerFinished(Worker::Announcer));
    assert!(matches!(p, OneShotPhase::Finished));
    assert!(matches!(act, Some(Action::Shutdown)));
}

#[test]
fn one_shot_aborts_when_bot_dies() {
    let p = OneShotPhase::AwaitGofer;
    let (p, act) = one_shot_step(&p, &OneShotEvent::WorkerFinished(Worker::DiscordBot));
    assert!(matches!(p, OneShotPhase::Failed));
    assert!(act.is_none());
}

#[test]
fn gofer_gives_up_after_its_budget() {
    let mut phase = run_gofer();
    for _ in 0..4 {
        phase = gofer_step(&phase, &GoferEvent::FetchErr);
        assert!(matches!(phase, GoferPhase::Fetching { .. }));
    }
    phase = gofer_step(&phase, &GoferEvent::FetchErr);
    assert!(matches!(phase, GoferPhase::Done { fetched: false, saved: false }));
}

#[test]
fn gofer_saves_after_successful_fetch() {
    let phase = run_gofer();
    let phase = gofer_step(&phase, &GoferEvent::FetchErr);
    let phase = gofer_step(&phase, &GoferEvent::FetchOk);
    assert!(matches!(phase, GoferPhase::Saving { attempts_left: 5 }));
    let phase = gofer_step(&phase, &GoferEvent::SaveErr);
    let phase = gofer_step(&phase, &GoferEvent::SaveOk);
    assert!(matches!(phase, GoferPhase::Done { fetched: true, saved: true }));
}
