use meme_lobby::app_error::AppError;
use meme_lobby::directory::{Directory, DEFAULT_REROLLS};
use meme_lobby::dto::meme_template::MemeTemplate;
use meme_lobby::dto::player::Player;
use meme_lobby::logged_in_player::LoggedInPlayer;
use meme_lobby::join_lobby::JoinLobbyPayload;
use meme_lobby::player::Player as GuestPlayer;
use meme_lobby::template_pool::TemplatePool;
use meme_lobby::templates::ingame::IngameTemplateContext;
use meme_lobby::templates::lobby::{lobby_players, LobbyTemplateContext, PlayerHTMLInfo};
use meme_lobby::unlabeled_meme::UnlabeledMeme;

#[test]
fn pick_random_fails_pool_empty_on_an_empty_pool() {
    let pool = TemplatePool::new();
    assert_eq!(pool.pick_random().err().unwrap(), AppError::PoolEmpty);
}

#[test]
fn pick_random_returns_a_member_of_the_pool() {
    let mut pool = TemplatePool::new();
    let a = pool.add_template("https://example.org/a.png".to_string());
    let b = pool.add_template("https://example.org/b.png".to_string());
    let t = pool.pick_random().unwrap();
    assert!(t.id == a || t.id == b);
    assert!(t.uri == "https://example.org/a.png" || t.uri == "https://example.org/b.png");
}

#[test]
fn pick_excluding_avoids_the_exclusion_set() {
    let mut pool = TemplatePool::new();
    let a = pool.add_template("https://example.org/a.png".to_string());
    let b = pool.add_template("https://example.org/b.png".to_string());
    let c = pool.add_template("https://example.org/c.png".to_string());
    let t = pool.pick_excluding(&vec![a, c]).unwrap();
    assert_eq!(t.id, b);
}

#[test]
fn pick_excluding_fails_not_available_when_everything_is_excluded() {
    let mut pool = TemplatePool::new();
    let a = pool.add_template("https://example.org/a.png".to_string());
    let b = pool.add_template("https://example.org/b.png".to_string());
    let r = pool.pick_excluding(&vec![a, b]);
    assert_eq!(r.err().unwrap(), AppError::NotAvailable);
}

#[test]
fn pool_lookup_finds_seeded_templates() {
    let mut pool = TemplatePool::new();
    let a = pool.add_template("https://example.org/a.png".to_string());
    let found = pool.get(a).unwrap();
    assert_eq!(found.id, a);
    assert_eq!(found.uri, "https://example.org/a.png");
    assert!(pool.get(a + 1).is_none());
    assert_eq!(pool.pool_len(), 1);
}

#[test]
fn directory_create_then_get_round_trips() {
    let mut d = Directory::new();
    let id = d.create("carol".to_string());
    assert_eq!(id, 1);
    let p = d.get(id).unwrap();
    assert_eq!(p.id, id);
    assert_eq!(p.name, "carol");
    assert_eq!(p.selected_meme_template_id, None);
    assert_eq!(p.rerolls_left, DEFAULT_REROLLS);
    assert!(p.seen_meme_templates.is_empty());
    assert_eq!(d.get(2).err().unwrap(), AppError::NotFound);
}

#[test]
fn commit_assignment_rejects_a_duplicate_history_entry() {
    let mut d = Directory::new();
    let id = d.create("carol".to_string());
    d.commit_assignment(id, 7).unwrap();
    let mut d2 = d;
    d2.evict_current_to_history(id).unwrap();
    let r = d2.commit_assignment(id, 7);
    assert_eq!(r.err().unwrap(), AppError::DuplicateHistoryEntry);
    // the failed commit changed nothing
    let p = d2.get(id).unwrap();
    assert_eq!(p.selected_meme_template_id, None);
    assert_eq!(p.seen_meme_templates, vec![7]);
}

#[test]
fn evict_clears_the_assignment_and_keeps_the_history() {
    let mut d = Directory::new();
    let id = d.create("carol".to_string());
    d.commit_assignment(id, 7).unwrap();
    let before = d.get(id).unwrap();
    assert_eq!(before.selected_meme_template_id, Some(7));
    assert_eq!(before.seen_meme_templates, vec![7]);
    d.evict_current_to_history(id).unwrap();
    let after = d.get(id).unwrap();
    assert_eq!(after.selected_meme_template_id, None);
    assert_eq!(after.seen_meme_templates, vec![7]);
}

#[test]
fn decrement_reroll_stops_at_zero() {
    let mut d = Directory::new();
    let id = d.create("carol".to_string());
    d.decrement_reroll(id).unwrap();
    d.decrement_reroll(id).unwrap();
    d.decrement_reroll(id).unwrap();
    assert_eq!(d.get(id).unwrap().rerolls_left, 0);
    let r = d.decrement_reroll(id);
    assert_eq!(r.err().unwrap(), AppError::QuotaExhausted);
    assert_eq!(d.get(id).unwrap().rerolls_left, 0);
}

#[test]
fn join_payload_accepts_only_non_empty_names() {
    let good = JoinLobbyPayload {
        player_name: "dave".to_string(),
    };
    assert!(good.is_valid());
    assert_eq!(good.player_name_if_valid(), Some("dave".to_string()));
    let bad = JoinLobbyPayload {
        player_name: "".to_string(),
    };
    assert!(!bad.is_valid());
    assert_eq!(bad.player_name_if_valid(), None);
}

#[test]
fn ingame_context_numbers_its_label_slots() {
    let ctx = IngameTemplateContext::new("https://example.org/a.png".to_string(), 2, 2);
    assert_eq!(ctx.template_image_uri, "https://example.org/a.png");
    assert_eq!(ctx.remaining_rerolls, 2);
    assert_eq!(ctx.labels, vec![1, 2]);
}

#[test]
fn lobby_rows_mark_the_logged_in_player() {
    let players = vec![
        Player {
            id: 1,
            name: "alice".to_string(),
            selected_meme_template_id: None,
            rerolls_left: 3,
        },
        Player {
            id: 2,
            name: "bob".to_string(),
            selected_meme_template_id: Some(1),
            rerolls_left: 2,
        },
    ];
    let rows = lobby_players(&players, 2);
    assert_eq!(rows.len(), 2);
    assert_eq!(rows[0].name().as_str(), "alice");
    assert!(!rows[0].is_logged_in_user());
    assert_eq!(rows[1].name().as_str(), "bob");
    assert!(rows[1].is_logged_in_user());
    let row = PlayerHTMLInfo::new("carol".to_string(), true);
    assert_eq!(row.name().as_str(), "carol");
    assert!(row.is_logged_in_user());
    let context = LobbyTemplateContext { players: rows };
    assert_eq!(context.players.len(), 2);
}

#[test]
fn labelling_fills_exactly_the_declared_slots() {
    let meme = UnlabeledMeme::new("https://example.org/a.png".to_string(), 2, vec![10, 90]);
    let labelled = meme
        .label(&vec!["top".to_string(), "bottom".to_string()])
        .unwrap();
    assert_eq!(labelled.image_uri, "https://example.org/a.png");
    assert_eq!(
        labelled.labels,
        vec!["top".to_string(), "bottom".to_string()]
    );
    let short = meme.label(&vec!["only".to_string()]);
    assert_eq!(short.err().unwrap(), AppError::BadRequest);
}

#[test]
fn a_fresh_guest_gets_a_uuid_and_an_empty_history() {
    let p = GuestPlayer::new_guest("erin".to_string());
    assert_eq!(p.id.len(), 36);
    assert_eq!(p.name, "erin");
    assert!(p.selected_meme_template_id.is_none());
    assert!(p.seen_meme_templates.is_empty());
    let q = GuestPlayer::new_guest("erin".to_string());
    assert_ne!(p.id, q.id);
}

#[test]
fn a_logged_in_player_wraps_its_record() {
    let viewer = LoggedInPlayer(Player {
        id: 5,
        name: "frank".to_string(),
        selected_meme_template_id: Some(2),
        rerolls_left: 1,
    });
    assert_eq!(viewer.0.id, 5);
    assert_eq!(viewer.0.name, "frank");
}

#[test]
fn duplicating_a_template_keeps_both_fields() {
    let t = MemeTemplate {
        id: 4,
        uri: "https://example.org/d.png".to_string(),
    };
    let copy = t.duplicate();
    assert_eq!(copy.id, 4);
    assert_eq!(copy.uri, "https://example.org/d.png");
}

#[test]
fn error_messages_name_their_cause() {
    assert_eq!(AppError::QuotaExhausted.message(), "cant reroll!");
    assert_eq!(
        AppError::PoolExhausted.message(),
        "couldnt pick a new meme template, as all were seen or in use"
    );
    assert_eq!(AppError::BadRequest.message(), "Bad request!");
}
