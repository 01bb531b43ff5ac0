use tictactoe::board::Mark;
use tictactoe::chat::Message;
use tictactoe::contract::GameContract;
use tictactoe::Address;

const NOW: u64 = 12345;
const PLAYER_A: Address = 1;
const PLAYER_B: Address = 2;
const PLAYER_C: Address = 3;

struct GameTest {
    player_a: Address,
    player_b: Address,
    expiration: u64,
    client: GameContract,
}

impl GameTest {
    fn setup() -> Self {
        let duration = 60 * 10;
        let expiration = NOW + duration;
        GameTest {
            player_a: PLAYER_A,
            player_b: PLAYER_B,
            expiration,
            client: GameContract::new(),
        }
    }

    fn make_player_a_win(client: &mut GameContract, player_a: Address, player_b: Address) {
        client.play(player_a, 0, 0, NOW).unwrap();
        client.play(player_b, 0, 1, NOW).unwrap();
        client.play(player_a, 1, 0, NOW).unwrap();
        client.play(player_b, 1, 1, NOW).unwrap();
        client.play(player_a, 2, 0, NOW).unwrap();
    }
}

#[test]
fn test_initialize() {
    let GameTest { player_a, player_b, expiration, mut client } = GameTest::setup();

    client.init(player_a, player_b, expiration).unwrap();

    assert_eq!(client.player_a(), Ok(player_a));
    assert_eq!(client.player_b(), Ok(player_b));

    assert_eq!(client.turn(), Ok(player_a));
}

#[test]
#[should_panic]
fn test_already_initialized() {
    let GameTest { player_a, player_b, expiration, mut client } = GameTest::setup();

    client.init(player_a, player_b, expiration).unwrap();
    client.init(player_a, player_b, expiration).unwrap();
}

#[test]
fn test_change_turn() {
    let GameTest { player_a, player_b, expiration, mut client } = GameTest::setup();

    client.init(player_a, player_b, expiration).unwrap();

    let pos_x: u32 = 2;
    let pos_y: u32 = 2;

    client.play(player_a, pos_x, pos_y, NOW).unwrap();
    assert_eq!(client.turn(), Ok(player_b));

    client.play(player_b, pos_x - 1, pos_y - 1, NOW).unwrap();
    assert_eq!(client.turn(), Ok(player_a));
}

#[test]
#[should_panic]
fn test_other_player() {
    let GameTest { player_a, player_b, expiration, mut client } = GameTest::setup();
    let player_c = PLAYER_C;

    client.init(player_a, player_b, expiration).unwrap();

    let pos_x: u32 = 2;
    let pos_y: u32 = 2;

    client.play(player_a, pos_x, pos_y, NOW).unwrap();
    client.play(player_c, pos_x - 1, pos_y - 1, NOW).unwrap();
}

#[test]
#[should_panic]
fn test_twice_play() {
    let GameTest { player_a, player_b, expiration, mut client } = GameTest::setup();

    client.init(player_a, player_b, expiration).unwrap();

    let pos_x: u32 = 2;
    let pos_y: u32 = 2;

    client.play(player_a, pos_x, pos_y, NOW).unwrap();
    client.play(player_a, pos_x - 1, pos_y - 1, NOW).unwrap();
}

#[test]
fn test_mark_empty_cell() {
    let GameTest { player_a, player_b, expiration, mut client } = GameTest::setup();

    client.init(player_a, player_b, expiration).unwrap();

    let pos_x: u32 = 2;
    let pos_y: u32 = 2;

    client.play(player_a, pos_x, pos_y, NOW).unwrap();
}

#[test]
#[should_panic]
fn test_mark_used_cell() {
    let GameTest { player_a, player_b, expiration, mut client } = GameTest::setup();

    client.init(player_a, player_b, expiration).unwrap();

    let pos_x: u32 = 2;
    let pos_y: u32 = 2;

    client.play(player_a, pos_x, pos_y, NOW).unwrap();
    client.play(player_b, pos_x, pos_y, NOW).unwrap();
}

#[test]
#[should_panic]
fn test_no_winner() {
    let GameTest { player_a, player_b, expiration, mut client } = GameTest::setup();

    client.init(player_a, player_b, expiration).unwrap();

    client.winner(NOW).unwrap();
}

#[test]
fn test_winner_a() {
    let GameTest { player_a, player_b, expiration, mut client } = GameTest::setup();

    client.init(player_a, player_b, expiration).unwrap();

    GameTest::make_player_a_win(&mut client, player_a, player_b);

    assert_eq!(client.ended(NOW), true);
    assert_eq!(client.winner(NOW), Ok(Some(player_a)));
}

#[test]
fn test_winner_b() {
    let GameTest { player_a, player_b, expiration, mut client } = GameTest::setup();

    client.init(player_a, player_b, expiration).unwrap();

    client.play(player_a, 2, 0, NOW).unwrap();
    client.play(player_b, 0, 0, NOW).unwrap();
    client.play(player_a, 1, 0, NOW).unwrap();
    client.play(player_b, 0, 1, NOW).unwrap();
    client.play(player_a, 1, 1, NOW).unwrap();
    client.play(player_b, 0, 2, NOW).unwrap();

    assert_eq!(client.ended(NOW), true);
    assert_eq!(client.winner(NOW), Ok(Some(player_b)));
}

#[test]
#[should_panic]
fn test_game_over() {
    let GameTest { player_a, player_b, expiration, mut client } = GameTest::setup();

    client.init(player_a, player_b, expiration).unwrap();

    assert_eq!(client.ended(NOW), false);

    client.play(player_a, 0, 0, NOW).unwrap();
    client.play(player_b, 0, 1, NOW).unwrap();
    client.play(player_a, 1, 0, NOW).unwrap();
    client.play(player_b, 1, 1, NOW).unwrap();
    assert_eq!(client.ended(NOW), false);
    client.play(player_a, 2, 0, NOW).unwrap(); // player_a already won
    assert_eq!(client.ended(NOW), true);
    client.play(player_b, 1, 2, NOW).unwrap();
}

#[test]
#[should_panic]
fn test_draw() {
    let GameTest { player_a, player_b, expiration, mut client } = GameTest::setup();

    client.init(player_a, player_b, expiration).unwrap();

    client.play(player_a, 0, 0, NOW).unwrap();
    client.play(player_b, 1, 0, NOW).unwrap();
    client.play(player_a, 2, 0, NOW).unwrap();

    client.play(player_b, 2, 1, NOW).unwrap();
    client.play(player_a, 0, 1, NOW).unwrap();
    client.play(player_b, 1, 1, NOW).unwrap();

    client.play(player_a, 1, 2, NOW).unwrap();
    client.play(player_b, 0, 2, NOW).unwrap();
    client.play(player_a, 2, 2, NOW).unwrap();

    // A draw has no winner to hand out.
    let _winner: Address = client.winner(NOW).unwrap().unwrap();
}

#[test]
fn test_grid() {
    let GameTest { player_a, player_b, expiration, mut client } = GameTest::setup();

    let mut grid = vec![Mark::Empty; 9];

    client.init(player_a, player_b, expiration).unwrap();
    assert_eq!(client.grid(), grid);

    // Symbols are listed row-major from (0, 0): (x, y) sits at 3 * y + x.
    client.play(player_a, 2, 2, NOW).unwrap();
    grid[8] = Mark::X;
    assert_eq!(client.grid(), grid);

    client.play(player_b, 0, 2, NOW).unwrap();
    grid[6] = Mark::O;
    assert_eq!(client.grid(), grid);

    client.play(player_a, 1, 1, NOW).unwrap();
    grid[4] = Mark::X;
    assert_eq!(client.grid(), grid);

    client.play(player_b, 1, 0, NOW).unwrap();
    grid[1] = Mark::O;
    assert_eq!(client.grid(), grid);
}

#[test]
fn test_expired() {
    let GameTest { player_a, player_b, expiration: _, mut client } = GameTest::setup();

    client.init(player_a, player_b, 100).unwrap();

    assert_eq!(client.ended(NOW), true);
}

#[test]
fn test_empty_chat() {
    let GameTest { player_a, player_b, expiration, mut client } = GameTest::setup();

    client.init(player_a, player_b, expiration).unwrap();

    assert_eq!(client.chat(), Vec::<Message>::new());
}

#[test]
fn test_send_message() {
    let GameTest { player_a, player_b, expiration, mut client } = GameTest::setup();

    client.init(player_a, player_b, expiration).unwrap();

    let msg = Message { author: player_a, body: b"Hello".to_vec() };
    client.send_msg(msg.author, msg.body.clone());

    assert_eq!(client.chat(), vec![msg]);
}

#[test]
fn test_send_messages() {
    let GameTest { player_a, player_b, expiration, mut client } = GameTest::setup();

    client.init(player_a, player_b, expiration).unwrap();

    let msg = Message { author: player_a, body: b"Hello".to_vec() };
    client.send_msg(msg.author, msg.body.clone());

    let msg2 = Message { author: player_b, body: b"No".to_vec() };
    client.send_msg(msg2.author, msg2.body.clone());

    assert_eq!(client.chat(), vec![msg, msg2]);
}
