use std::collections::BTreeMap;

use tictactoe::contract::GameContract;
use tictactoe::registry::{add_exp, Deployer, Game};
use tictactoe::Address;

const NOW: u64 = 12345;

/// A registry with the game instances it deployed, as a host would hold them.
struct GameTest {
    deployer_client: Deployer,
    instances: BTreeMap<Address, GameContract>,
    player_a: Address,
    player_b: Address,
    contract_id: Address,
}

impl GameTest {
    fn setup() -> Self {
        let mut test = GameTest {
            deployer_client: Deployer::new(),
            instances: BTreeMap::new(),
            player_a: 1,
            player_b: 2,
            contract_id: 0,
        };
        test.contract_id = test.deploy_new_game(0);
        test
    }

    /// Deploy an instance at the address that `salt` gives and start it.
    fn deploy_new_game(&mut self, salt: u8) -> Address {
        let id: Address = 1000 + salt as Address;
        let mut client = GameContract::new();
        client.init(self.player_a, self.player_b, add_exp(NOW)).unwrap();
        self.instances.insert(id, client);
        self.deployer_client.deploy(id, self.player_a, self.player_b)
    }

    fn game_client(&mut self, id: Address) -> &mut GameContract {
        self.instances.get_mut(&id).unwrap()
    }

    /// Ask the registry for game `id`, handing it what the live instance reports.
    fn game(&mut self, id: Address) -> Game {
        let client = &self.instances[&id];
        let ended = client.ended(NOW);
        let winner = if ended { client.winner(NOW).unwrap() } else { None };
        self.deployer_client.game(id, ended, winner).unwrap()
    }

    fn make_player_a_win(client: &mut GameContract, player_a: Address, player_b: Address) {
        client.play(player_a, 0, 0, NOW).unwrap();
        client.play(player_b, 0, 1, NOW).unwrap();
        client.play(player_a, 1, 0, NOW).unwrap();
        client.play(player_b, 1, 1, NOW).unwrap();
        client.play(player_a, 2, 0, NOW).unwrap();
    }
}

#[test]
fn test_deploy() {
    let mut t = GameTest::setup();
    let (player_a, player_b, id) = (t.player_a, t.player_b, t.contract_id);
    let game_client = t.game_client(id);

    assert_eq!(game_client.player_a(), Ok(player_a));
    assert_eq!(game_client.player_b(), Ok(player_b));
}

#[test]
fn test_get_game() {
    let mut t = GameTest::setup();
    let game = Game { player_a: t.player_a, player_b: t.player_b, ended: false };

    assert_eq!(t.game(t.contract_id), game);
    assert_eq!(t.game(t.contract_id), game);
}

#[test]
fn test_set_ended() {
    let mut t = GameTest::setup();
    let (player_a, player_b, id) = (t.player_a, t.player_b, t.contract_id);
    let mut game = Game { player_a, player_b, ended: false };

    assert_eq!(t.game(id), game);
    GameTest::make_player_a_win(t.game_client(id), player_a, player_b);
    game.ended = true;
    assert_eq!(t.game(id), game);
}

#[test]
fn test_scores() {
    let t = GameTest::setup();

    let exp: BTreeMap<Address, u32> = BTreeMap::new();
    assert_eq!(t.deployer_client.scores(), exp);
}

#[test]
fn test_scores_add_win() {
    let mut t = GameTest::setup();
    let (player_a, player_b, id) = (t.player_a, t.player_b, t.contract_id);
    let mut game = Game { player_a, player_b, ended: false };

    assert_eq!(t.game(id), game);

    GameTest::make_player_a_win(t.game_client(id), player_a, player_b);

    game.ended = true;
    assert_eq!(t.game(id), game);

    let exp = BTreeMap::from([(player_a, 1u32)]);
    assert_eq!(t.deployer_client.scores(), exp);
}

#[test]
fn test_scores_add_wins() {
    let mut t = GameTest::setup();
    let (player_a, player_b) = (t.player_a, t.player_b);

    let game1 = t.deploy_new_game(1);
    GameTest::make_player_a_win(t.game_client(game1), player_a, player_b);
    t.game(game1);

    let game2 = t.deploy_new_game(2);
    GameTest::make_player_a_win(t.game_client(game2), player_a, player_b);
    t.game(game2);

    let exp = BTreeMap::from([(player_a, 2u32)]);
    assert_eq!(t.deployer_client.scores(), exp);
}

#[test]
fn test_scores_add_wins_2() {
    let mut t = GameTest::setup();
    let (player_a, player_b) = (t.player_a, t.player_b);

    let game1 = t.deploy_new_game(1);
    GameTest::make_player_a_win(t.game_client(game1), player_a, player_b);
    t.game(game1);

    let game2 = t.deploy_new_game(2);
    t.game_client(game2).play(player_a, 2, 2, NOW).unwrap();
    GameTest::make_player_a_win(t.game_client(game2), player_b, player_a);
    t.game(game2);

    let exp = BTreeMap::from([(player_a, 1u32), (player_b, 1u32)]);
    assert_eq!(t.deployer_client.scores(), exp);
}
