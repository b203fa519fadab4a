use async_demos::request_reply_actor::{Accumulator, ActorStep, CommandKind};

#[test]
fn actor_replies_with_running_total_and_stops() {
    let mut actor = Accumulator::new();
    assert_eq!(actor.handle(CommandKind::Add(7)), ActorStep::Reply(7));
    assert_eq!(actor.handle(CommandKind::Get), ActorStep::Reply(7));
    assert_eq!(actor.handle(CommandKind::Add(-10)), ActorStep::Reply(-3));
    assert_eq!(actor.handle(CommandKind::Shutdown), ActorStep::Stop);
    assert_eq!(actor.total, -3);
}
