use hextrap::bridge::{bridge_dispatch, bridge_join_outcome, BridgePlan};
use hextrap::hex::Coord;
use hextrap::net::ClientMsg;
use hextrap::types::Action;

#[test]
fn listing_keeps_the_membership() {
    let step = bridge_dispatch(Some(String::from("r1")), ClientMsg::ListRooms);
    assert!(step.leave.is_none());
    assert_eq!(step.stay, Some(String::from("r1")));
    assert!(matches!(step.plan, BridgePlan::SendRoomList));
}

#[test]
fn join_surrenders_the_old_room_first() {
    let step = bridge_dispatch(
        Some(String::from("r1")),
        ClientMsg::JoinRoom { room_id: String::from("r2") },
    );
    assert_eq!(step.leave, Some(String::from("r1")));
    assert!(step.stay.is_none());
    match step.plan {
        BridgePlan::EnterRoom { room_id } => assert_eq!(room_id, "r2"),
        _ => panic!("expected a join plan"),
    }
}

#[test]
fn create_surrenders_and_opens() {
    let step = bridge_dispatch(
        Some(String::from("r1")),
        ClientMsg::CreateRoom { name: String::from("fresh"), vs_bot: true },
    );
    assert_eq!(step.leave, Some(String::from("r1")));
    assert!(step.stay.is_none());
    match step.plan {
        BridgePlan::OpenRoom { name, vs_bot } => {
            assert_eq!(name, "fresh");
            assert!(vs_bot);
        },
        _ => panic!("expected a create plan"),
    }
}

#[test]
fn leave_only_surrenders() {
    let step = bridge_dispatch(Some(String::from("r1")), ClientMsg::LeaveRoom);
    assert_eq!(step.leave, Some(String::from("r1")));
    assert!(step.stay.is_none());
    assert!(matches!(step.plan, BridgePlan::StayOut));
    let step = bridge_dispatch(None, ClientMsg::LeaveRoom);
    assert!(step.leave.is_none());
    assert!(matches!(step.plan, BridgePlan::StayOut));
}

#[test]
fn actions_need_a_room() {
    let action = Action::PlaceBlock { at: Coord { q: 1, r: 0 } };
    let step = bridge_dispatch(None, ClientMsg::PlayerAction { action });
    assert!(step.leave.is_none());
    assert!(step.stay.is_none());
    assert!(matches!(step.plan, BridgePlan::ReplyNotInRoom));

    let step = bridge_dispatch(Some(String::from("r1")), ClientMsg::PlayerAction { action });
    assert!(step.leave.is_none());
    assert_eq!(step.stay, Some(String::from("r1")));
    match step.plan {
        BridgePlan::ForwardAction { room_id, action: fwd } => {
            assert_eq!(room_id, "r1");
            assert_eq!(fwd, action);
        },
        _ => panic!("expected a forwarded action"),
    }
}

#[test]
fn join_outcome_records_only_success() {
    let (next, refusal) = bridge_join_outcome(String::from("r9"), Ok(()));
    assert_eq!(next, Some(String::from("r9")));
    assert!(refusal.is_none());
    let (next, refusal) = bridge_join_outcome(String::from("r9"), Err(String::from("room is full")));
    assert!(next.is_none());
    assert_eq!(refusal, Some(String::from("room is full")));
}
