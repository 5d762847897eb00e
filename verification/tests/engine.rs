use meme_lobby::app_error::AppError;
use meme_lobby::directory::{Directory, Participant, DEFAULT_REROLLS};
use meme_lobby::player_manager::PlayerManager;
use meme_lobby::template_pool::TemplatePool;

fn seeded_manager(n_templates: i32) -> PlayerManager {
    let mut pool = TemplatePool::new();
    let mut k = 0;
    while k < n_templates {
        pool.add_template(format!("https://example.org/meme-{}.png", k));
        k += 1;
    }
    PlayerManager::new(pool, Directory::new())
}

fn assignment_of(m: &PlayerManager, pid: i32) -> Option<i32> {
    m.get_meme_template_id_for_player(pid).unwrap()
}

fn seen_of(m: &PlayerManager, pid: i32) -> Vec<i32> {
    for p in m.directory.participants.iter() {
        if p.id == pid {
            return p.seen_meme_templates.clone();
        }
    }
    panic!("no such participant");
}

#[test]
fn sign_in_hands_out_sequential_ids_and_defaults() {
    let mut m = seeded_manager(3);
    let x = m.sign_in_as_guest("alice".to_string());
    let y = m.sign_in_as_guest("bob".to_string());
    assert_eq!(x, 1);
    assert_eq!(y, 2);
    assert_eq!(m.get_remaining_rerolls(x).unwrap(), DEFAULT_REROLLS);
    assert_eq!(assignment_of(&m, x), None);
    assert!(seen_of(&m, x).is_empty());
}

#[test]
fn exclusivity_no_two_players_share_a_template() {
    let mut m = seeded_manager(3);
    let x = m.sign_in_as_guest("alice".to_string());
    let y = m.sign_in_as_guest("bob".to_string());
    let tx = m.ensure_assigned(x).unwrap();
    let ty = m.ensure_assigned(y).unwrap();
    assert_ne!(tx.id, ty.id);
    assert_eq!(assignment_of(&m, x), Some(tx.id));
    assert_eq!(assignment_of(&m, y), Some(ty.id));
}

#[test]
fn novelty_assignment_is_never_a_seen_template() {
    let mut m = seeded_manager(3);
    let x = m.sign_in_as_guest("alice".to_string());
    let t1 = m.ensure_assigned(x).unwrap();
    let seen_before = seen_of(&m, x);
    assert_eq!(seen_before, vec![t1.id]);
    let t2 = m.reroll_meme_template(x).unwrap();
    assert!(!seen_before.contains(&t2.id));
    assert_ne!(t2.id, t1.id);
}

#[test]
fn history_only_grows() {
    let mut m = seeded_manager(3);
    let x = m.sign_in_as_guest("alice".to_string());
    m.ensure_assigned(x).unwrap();
    let before = seen_of(&m, x);
    m.reroll_meme_template(x).unwrap();
    let after = seen_of(&m, x);
    assert!(after.len() > before.len());
    assert_eq!(&after[..before.len()], &before[..]);
}

#[test]
fn quota_floor_reroll_at_zero_fails_without_mutation() {
    let mut m = seeded_manager(3);
    let x = m.sign_in_as_guest("alice".to_string());
    let t1 = m.ensure_assigned(x).unwrap();
    m.set_rerolls_left(0, x).unwrap();
    let seen_before = seen_of(&m, x);
    let r = m.reroll_meme_template(x);
    assert_eq!(r.err().unwrap(), AppError::QuotaExhausted);
    assert_eq!(m.get_remaining_rerolls(x).unwrap(), 0);
    assert_eq!(assignment_of(&m, x), Some(t1.id));
    assert_eq!(seen_of(&m, x), seen_before);
}

#[test]
fn quota_decrements_by_exactly_one_per_successful_reroll() {
    let mut m = seeded_manager(3);
    let x = m.sign_in_as_guest("alice".to_string());
    m.ensure_assigned(x).unwrap();
    assert_eq!(m.get_remaining_rerolls(x).unwrap(), 3);
    m.reroll_meme_template(x).unwrap();
    assert_eq!(m.get_remaining_rerolls(x).unwrap(), 2);
}

#[test]
fn view_is_idempotent_without_an_intervening_reroll() {
    let mut m = seeded_manager(3);
    let x = m.sign_in_as_guest("alice".to_string());
    let t1 = m.view_current_assignment(x).unwrap();
    let t2 = m.view_current_assignment(x).unwrap();
    assert_eq!(t1.id, t2.id);
    assert_eq!(t1.uri, t2.uri);
    assert_eq!(seen_of(&m, x), vec![t1.id]);
}

#[test]
fn exhaustion_surfaces_pool_exhausted() {
    // pool = {1, 2, 3}; X has seen {1, 2} and Y holds 3
    let mut pool = TemplatePool::new();
    let a = pool.add_template("https://example.org/a.png".to_string());
    let b = pool.add_template("https://example.org/b.png".to_string());
    let c = pool.add_template("https://example.org/c.png".to_string());
    let directory = Directory {
        participants: vec![
            Participant {
                id: 1,
                name: "xavier".to_string(),
                selected_meme_template_id: None,
                rerolls_left: DEFAULT_REROLLS,
                seen_meme_templates: vec![a, b],
            },
            Participant {
                id: 2,
                name: "yvonne".to_string(),
                selected_meme_template_id: Some(c),
                rerolls_left: DEFAULT_REROLLS,
                seen_meme_templates: vec![c],
            },
        ],
        next_id: 3,
    };
    let mut m = PlayerManager::new(pool, directory);
    let r = m.ensure_assigned(1);
    assert_eq!(r.err().unwrap(), AppError::PoolExhausted);
    // nothing changed for either participant
    assert_eq!(assignment_of(&m, 1), None);
    assert_eq!(assignment_of(&m, 2), Some(c));
    assert_eq!(seen_of(&m, 1), vec![a, b]);
}

#[test]
fn reroll_scenario_keeps_the_new_pick_exclusive() {
    // pool = {A, B, C}: X draws, rerolls (budget 3 -> 2), then Y's draw must
    // avoid X's new template but may receive X's discarded one
    let mut m = seeded_manager(3);
    let x = m.sign_in_as_guest("xavier".to_string());
    let y = m.sign_in_as_guest("yvonne".to_string());
    let first = m.ensure_assigned(x).unwrap();
    assert!(first.id >= 1 && first.id <= 3);
    let second = m.reroll_meme_template(x).unwrap();
    assert_eq!(m.get_remaining_rerolls(x).unwrap(), 2);
    assert_ne!(second.id, first.id);
    assert_eq!(seen_of(&m, x), vec![first.id, second.id]);
    let ty = m.ensure_assigned(y).unwrap();
    assert_ne!(ty.id, second.id);
    assert!(ty.id >= 1 && ty.id <= 3);
}

#[test]
fn rerolls_run_dry_when_every_template_was_seen() {
    let mut m = seeded_manager(3);
    let x = m.sign_in_as_guest("alice".to_string());
    m.ensure_assigned(x).unwrap();
    m.reroll_meme_template(x).unwrap();
    m.reroll_meme_template(x).unwrap();
    // all three templates are now in the history
    let r = m.reroll_meme_template(x);
    assert_eq!(r.err().unwrap(), AppError::PoolExhausted);
    // the failed reroll consumed no quota
    assert_eq!(m.get_remaining_rerolls(x).unwrap(), 1);
}

#[test]
fn unknown_participant_is_not_found() {
    let mut m = seeded_manager(3);
    assert_eq!(m.get_player_by_id(99).err().unwrap(), AppError::NotFound);
    assert_eq!(m.ensure_assigned(99).err().unwrap(), AppError::NotFound);
    assert_eq!(m.reroll_meme_template(99).err().unwrap(), AppError::NotFound);
    assert_eq!(
        m.get_remaining_rerolls(99).err().unwrap(),
        AppError::NotFound
    );
    assert_eq!(m.set_rerolls_left(2, 99).err().unwrap(), AppError::NotFound);
}

#[test]
fn test_pick_meme() {
    let mut m = seeded_manager(3);
    let x = m.sign_in_as_guest("nijo".to_string());
    let picked = m.select_new_meme_template(x).unwrap();
    let t = picked.expect("a fresh player with a seeded pool must get a pick");
    assert!(t >= 1 && t <= 3);
    // nothing is committed by a bare selection
    assert_eq!(assignment_of(&m, x), None);
}

#[test]
fn selection_returns_nothing_once_exhausted() {
    let mut m = seeded_manager(2);
    let x = m.sign_in_as_guest("alice".to_string());
    m.ensure_assigned(x).unwrap();
    m.reroll_meme_template(x).unwrap();
    assert_eq!(m.select_new_meme_template(x).unwrap(), None);
}

#[test]
fn pick_commits_assignment_and_history_in_one_step() {
    let mut m = seeded_manager(3);
    let x = m.sign_in_as_guest("alice".to_string());
    let t = m.pick_meme_template(x).unwrap();
    assert_eq!(assignment_of(&m, x), Some(t));
    assert_eq!(seen_of(&m, x), vec![t]);
}

#[test]
fn submit_reroll_matches_reroll() {
    let mut m = seeded_manager(3);
    let x = m.sign_in_as_guest("alice".to_string());
    let t1 = m.ensure_assigned(x).unwrap();
    let t2 = m.submit_reroll(x).unwrap();
    assert_ne!(t1.id, t2.id);
    assert_eq!(m.get_remaining_rerolls(x).unwrap(), 2);
}

#[test]
fn can_reroll_is_a_strict_positivity_test() {
    let m = seeded_manager(0);
    assert!(m.can_reroll(1));
    assert!(!m.can_reroll(0));
}
