use candid::Principal;
use onchainmsc_backend::{
    ModerationStatus, ModerationTargetType, Split, TrackRole, TrackStore, TrackVisibility, UploadError,
    UserRole, MAX_FILE_SIZE,
};

fn who() -> Principal {
    Principal::anonymous()
}

fn store_with_artists(n: u64) -> TrackStore {
    let mut s = TrackStore::new();
    for i in 0..n {
        assert_eq!(s.ledger.open_account(), Some(i + 1));
    }
    s
}

fn new_track(s: &mut TrackStore, title: &str, contributors: Vec<u64>) -> u64 {
    let t = s
        .create_track(title.to_string(), "A calm tune".to_string(), contributors, who(), 1000)
        .expect("track is created");
    t.id
}

#[test]
fn revert_scenario_restores_title_as_version_three() {
    let mut s = TrackStore::new();
    let id = new_track(&mut s, "Dawn", vec![1, 2]);
    let v2 = s
        .add_track_version(id, "Dusk".to_string(), "A calm tune".to_string(), vec![1, 2], None, who(), 1001)
        .unwrap();
    assert_eq!(v2.version, 2);
    assert_eq!(s.get_track(id).unwrap().title, "Dusk");
    let t = s.revert_to_version(id, 1, who(), 1002).unwrap();
    assert_eq!(t.version, 3);
    assert_eq!(t.title, "Dawn");
    let versions = s.get_track_versions(id);
    assert_eq!(versions.len(), 3);
    assert_eq!(versions[2].change_description.as_deref(), Some("Reverted to version 1"));
    assert_eq!(versions[0].change_description.as_deref(), Some("Initial version"));
}

#[test]
fn version_numbers_stay_contiguous() {
    let mut s = TrackStore::new();
    let id = new_track(&mut s, "One", vec![7]);
    for k in 0..4u64 {
        s.add_track_version(id, format!("T{}", k), "d".to_string(), vec![7], Some("edit".to_string()), who(), k)
            .unwrap();
        s.revert_to_version(id, 1, who(), k).unwrap();
    }
    let versions = s.get_track_versions(id);
    assert_eq!(versions.len(), 9);
    for (i, v) in versions.iter().enumerate() {
        assert_eq!(v.version as usize, i + 1);
    }
    assert_eq!(s.get_track(id).unwrap().version, 9);
}

#[test]
fn compare_after_revert_shows_no_change() {
    let mut s = TrackStore::new();
    let id = new_track(&mut s, "Alpha", vec![1, 2]);
    s.add_track_version(id, "Beta".to_string(), "Other".to_string(), vec![3], None, who(), 5).unwrap();
    let t = s.revert_to_version(id, 1, who(), 6).unwrap();
    let c = s.compare_versions(id, 1, t.version).unwrap();
    assert!(!c.title_changed && !c.description_changed && !c.contributors_changed);
    assert_eq!(c.title_diff, None);
    assert_eq!(c.contributors_diff, None);
}

#[test]
fn compare_describes_changed_fields() {
    let mut s = TrackStore::new();
    let id = new_track(&mut s, "Alpha", vec![1, 2]);
    s.add_track_version(id, "Beta".to_string(), "A calm tune".to_string(), vec![3], None, who(), 5).unwrap();
    let c = s.compare_versions(id, 1, 2).unwrap();
    assert_eq!((c.version1, c.version2), (1, 2));
    assert!(c.title_changed);
    assert!(!c.description_changed);
    assert_eq!(c.title_diff.as_deref(), Some("Alpha -> Beta"));
    assert_eq!(c.description_diff, None);
    assert_eq!(c.contributors_diff.as_deref(), Some("[1, 2] -> [3]"));
    assert!(s.compare_versions(id, 1, 3).is_none());
    assert!(s.compare_versions(id, 0, 1).is_none());
    assert!(s.compare_versions(id + 1, 1, 1).is_none());
}

#[test]
fn unknown_track_or_version_fails() {
    let mut s = TrackStore::new();
    let id = new_track(&mut s, "Alpha", vec![1]);
    assert!(s.add_track_version(id + 5, "x".to_string(), "y".to_string(), vec![1], None, who(), 1).is_none());
    assert!(s.revert_to_version(id, 2, who(), 1).is_none());
    assert!(s.revert_to_version(id, 0, who(), 1).is_none());
    assert_eq!(s.get_track_versions(id).len(), 1);
}

#[test]
fn update_track_leaves_history_alone() {
    let mut s = TrackStore::new();
    let id = new_track(&mut s, "Alpha", vec![1]);
    let t = s.update_track(id, "Edited".to_string(), "New".to_string(), vec![4], 42).unwrap();
    assert_eq!(t.version, 42);
    assert_eq!(t.title, "Edited");
    assert_eq!(s.get_track_versions(id).len(), 1);
    assert!(s.update_track(99, "a".to_string(), "b".to_string(), vec![], 1).is_none());
}

#[test]
fn create_track_sets_up_owners_and_ids() {
    let mut s = TrackStore::new();
    let t = s.create_track("Song".to_string(), "Desc".to_string(), vec![3, 4], who(), 77).unwrap();
    assert_eq!(t.id, 1);
    assert_eq!(t.version, 1);
    assert_eq!(t.roles, vec![(3, TrackRole::Owner), (4, TrackRole::Owner)]);
    assert_eq!(t.visibility, TrackVisibility::Public);
    assert!(t.downloadable);
    assert!(t.splits.is_none());
    let t2 = s.create_track("Song 2".to_string(), "Desc".to_string(), vec![3], who(), 78).unwrap();
    assert_eq!(t2.id, 2);
    let log = s.get_user_activity(3);
    assert_eq!(log.len(), 2);
    assert_eq!(log[0].action, "create_track");
    assert_eq!(log[0].details, "Track 1 created");
    assert_eq!(log[1].details, "Track 2 created");
    assert_eq!(s.moderation.items.len(), 0);
}

#[test]
fn create_track_rejects_blank_or_empty_inputs() {
    let mut s = TrackStore::new();
    assert!(s.create_track("".to_string(), "d".to_string(), vec![1], who(), 0).is_none());
    assert!(s.create_track(" \t\n".to_string(), "d".to_string(), vec![1], who(), 0).is_none());
    assert!(s.create_track("t".to_string(), "   ".to_string(), vec![1], who(), 0).is_none());
    assert!(s.create_track("t".to_string(), "d".to_string(), vec![], who(), 0).is_none());
    assert_eq!(s.list_tracks().len(), 0);
    assert_eq!(s.next_track_id, 1);
}

#[test]
fn banned_keyword_in_description_is_flagged() {
    let mut s = TrackStore::new();
    let t = s
        .create_track("Hit".to_string(), "Pure SPAM here".to_string(), vec![1], who(), 500)
        .unwrap();
    assert_eq!(s.moderation.items.len(), 1);
    let item = &s.moderation.items[0];
    assert_eq!(item.id, 1);
    assert_eq!(item.status, ModerationStatus::Pending);
    assert_eq!(item.target_type, ModerationTargetType::Track);
    assert_eq!(item.target_id, t.id.to_string());
    assert_eq!(item.reason, "Contains banned keyword: spam");
    assert!(item.flagged_by.is_none());
    assert_eq!(item.notes.as_deref(), Some("Auto-flagged by system"));
    assert_eq!(item.created_at, 500);
}

#[test]
fn first_matching_keyword_wins() {
    let s = TrackStore::new();
    let r = s.screen.check_content_for_banned_words("an illegal fake copy");
    assert_eq!(r.as_deref(), Some("Contains banned keyword: fake"));
    assert_eq!(s.screen.check_content_for_banned_words("clean words"), None);
}

#[test]
fn comment_is_screened_and_logged() {
    let mut s = TrackStore::new();
    let id = new_track(&mut s, "Song", vec![1]);
    let t = s.add_comment(id, 9, "what a scam".to_string(), 321).unwrap();
    assert_eq!(t.comments.len(), 1);
    assert_eq!(t.comments[0].commenter, 9);
    assert_eq!(s.moderation.items.len(), 1);
    assert_eq!(s.moderation.items[0].target_type, ModerationTargetType::Comment);
    assert_eq!(s.moderation.items[0].target_id, "track_1_comment_321");
    assert_eq!(s.moderation.items[0].reason, "Contains banned keyword: scam");
    s.add_comment(id, 9, "lovely".to_string(), 322).unwrap();
    assert_eq!(s.moderation.items.len(), 1);
    assert_eq!(s.list_comments(id).len(), 2);
    let log = s.get_user_activity(9);
    assert_eq!(log[0].details, "Commented on track 1: what a scam");
    assert!(s.add_comment(id + 1, 9, "spam".to_string(), 1).is_none());
    assert_eq!(s.moderation.items.len(), 1);
}

#[test]
fn split_sixty_forty_pays_exactly() {
    let mut s = store_with_artists(2);
    let id = new_track(&mut s, "Song", vec![1, 2]);
    s.set_track_splits(id, vec![Split { id: 1, pct: 60 }, Split { id: 2, pct: 40 }]).unwrap();
    assert!(s.distribute_payment(id, 7, 100, 55));
    assert_eq!(s.ledger.get_royalty_balance(1), 60);
    assert_eq!(s.ledger.get_royalty_balance(2), 40);
    let payments = s.get_payment_history(id);
    assert_eq!(payments.len(), 1);
    assert_eq!((payments[0].payer, payments[0].amount, payments[0].timestamp), (7, 100, 55));
    assert_eq!(s.get_user_activity(7)[0].details, "Paid 100 for track 1");
}

#[test]
fn split_over_hundred_truncates_each_share() {
    let mut s = store_with_artists(2);
    let id = new_track(&mut s, "Song", vec![1, 2]);
    s.set_track_splits(id, vec![Split { id: 1, pct: 60 }, Split { id: 2, pct: 41 }]).unwrap();
    assert!(s.distribute_payment(id, 7, 10, 1));
    assert_eq!(s.ledger.get_royalty_balance(1), 6);
    assert_eq!(s.ledger.get_royalty_balance(2), 4);
}

#[test]
fn payment_without_splits_or_track_fails() {
    let mut s = store_with_artists(1);
    let id = new_track(&mut s, "Song", vec![1]);
    assert!(!s.distribute_payment(id, 7, 100, 1));
    assert!(!s.distribute_payment(id + 1, 7, 100, 1));
    assert_eq!(s.get_payment_history(id).len(), 0);
    assert_eq!(s.ledger.get_royalty_balance(1), 0);
}

#[test]
fn unknown_artist_in_split_is_skipped() {
    let mut s = store_with_artists(1);
    let id = new_track(&mut s, "Song", vec![1]);
    s.set_track_splits(id, vec![Split { id: 1, pct: 50 }, Split { id: 99, pct: 50 }]).unwrap();
    assert!(s.distribute_payment(id, 7, 10, 1));
    assert_eq!(s.ledger.get_royalty_balance(1), 5);
    assert_eq!(s.ledger.get_royalty_balance(99), 0);
    assert_eq!(s.get_payment_history(id).len(), 1);
}

#[test]
fn withdraw_fails_exactly_on_zero_or_overdraft() {
    let mut s = store_with_artists(1);
    let id = new_track(&mut s, "Song", vec![1]);
    s.set_track_splits(id, vec![Split { id: 1, pct: 100 }]).unwrap();
    assert!(s.distribute_payment(id, 7, 50, 1));
    assert!(!s.withdraw_royalties(1, 0, 2));
    assert!(!s.withdraw_royalties(1, 51, 2));
    assert_eq!(s.ledger.get_royalty_balance(1), 50);
    assert!(s.withdraw_royalties(1, 20, 2));
    assert_eq!(s.ledger.get_royalty_balance(1), 30);
    assert!(s.withdraw_royalties(1, 30, 3));
    assert_eq!(s.ledger.get_royalty_balance(1), 0);
    assert!(!s.withdraw_royalties(1, 1, 4));
    assert!(!s.withdraw_royalties(42, 1, 4));
    assert_eq!(s.get_user_activity(1).last().unwrap().details, "Withdrew 30 tokens");
}

#[test]
fn rating_outside_range_fails_and_repeat_overwrites() {
    let mut s = TrackStore::new();
    let id = new_track(&mut s, "Song", vec![1]);
    assert!(s.rate_track(id, 5, 4));
    assert!(!s.rate_track(id, 5, 0));
    assert!(!s.rate_track(id, 5, 6));
    assert_eq!(s.get_user_track_rating(id, 5), Some(4));
    assert!(s.rate_track(id, 5, 2));
    assert_eq!(s.get_user_track_rating(id, 5), Some(2));
    assert_eq!(s.get_track(id).unwrap().ratings, vec![(5, 2)]);
    assert!(s.rate_track(id, 6, 5));
    assert_eq!(s.get_track_rating(id), (2, 3));
    assert!(!s.rate_track(id + 1, 5, 3));
    assert_eq!(s.get_track_rating(id + 1), (0, 0));
}

#[test]
fn roles_invites_tags_and_genre() {
    let mut s = TrackStore::new();
    let id = new_track(&mut s, "Song", vec![1]);
    assert!(s.assign_role(id, 8, TrackRole::Viewer));
    assert!(s.assign_role(id, 8, TrackRole::Collaborator));
    assert_eq!(s.get_user_role(id, 8), Some(TrackRole::Collaborator));
    assert_eq!(s.get_user_role(id, 1), Some(TrackRole::Owner));
    assert_eq!(s.get_user_role(id, 2), None);
    assert!(s.invite_user(id, 3));
    assert!(s.invite_user(id, 3));
    assert_eq!(s.get_track(id).unwrap().invited, vec![3]);
    assert!(s.add_tag(id, "rock".to_string()));
    assert!(s.add_tag(id, "rock".to_string()));
    assert!(s.add_tag(id, "live".to_string()));
    assert_eq!(s.get_track(id).unwrap().tags, vec!["rock".to_string(), "live".to_string()]);
    assert_eq!(s.search_tracks_by_tag(&"rock".to_string()).len(), 1);
    assert!(s.remove_tag(id, "rock".to_string()));
    assert_eq!(s.get_track(id).unwrap().tags, vec!["live".to_string()]);
    assert!(s.set_genre(id, "jazz".to_string()));
    assert_eq!(s.get_genre(id).as_deref(), Some("jazz"));
    assert_eq!(s.search_tracks_by_genre(&"jazz".to_string()).len(), 1);
    assert_eq!(s.search_tracks_by_genre(&"pop".to_string()).len(), 0);
    assert!(s.set_track_visibility(id, TrackVisibility::Private));
    assert_eq!(s.get_track_visibility(id), Some(TrackVisibility::Private));
    assert!(s.set_track_downloadable(id, false));
    assert!(!s.can_download_track(id));
    assert!(!s.add_tag(id + 1, "x".to_string()));
    assert!(!s.set_genre(id + 1, "x".to_string()));
}

#[test]
fn searches_and_analytics() {
    let mut s = store_with_artists(1);
    let a = new_track(&mut s, "Morning Light", vec![1, 2]);
    let b = new_track(&mut s, "Night", vec![2]);
    assert_eq!(s.search_tracks_by_title("LIGHT").len(), 1);
    assert_eq!(s.search_tracks_by_title("").len(), 2);
    assert_eq!(s.search_tracks_by_contributor(2).len(), 2);
    assert_eq!(s.search_tracks_by_contributor(1)[0].id, a);
    s.set_track_splits(b, vec![Split { id: 1, pct: 10 }]).unwrap();
    assert!(s.distribute_payment(b, 3, 30, 1));
    assert!(s.distribute_payment(b, 3, 12, 2));
    assert!(s.increment_play_count(b));
    assert!(s.rate_track(b, 1, 5));
    assert!(s.rate_track(b, 2, 2));
    let an = s.get_track_analytics(b).unwrap();
    assert_eq!(an.revenue, 42);
    assert_eq!(an.play_count, 1);
    assert_eq!(an.ratings_count, 2);
    assert_eq!(an.avg_rating, 3);
    assert_eq!(an.comments_count, 0);
    assert!(s.get_track_analytics(99).is_none());
    assert!(s.delete_track(a));
    assert!(!s.delete_track(a));
    assert!(s.get_track(a).is_none());
    assert_eq!(s.get_track_versions(a).len(), 0);
    assert_eq!(s.list_tracks().len(), 1);
}

#[test]
fn keywords_are_admin_only_and_lowercased() {
    let mut s = TrackStore::new();
    assert!(!s.screen.add_banned_keyword("Noise", UserRole::User));
    assert!(s.screen.add_banned_keyword("Noise", UserRole::Admin));
    assert!(!s.screen.add_banned_keyword("NOISE", UserRole::Admin));
    assert!(s.screen.list_banned_keywords().contains(&"noise".to_string()));
    assert_eq!(s.screen.check_content_for_banned_words("so much NoIsE").as_deref(), Some("Contains banned keyword: noise"));
    assert!(!s.screen.remove_banned_keyword("noise", UserRole::Moderator));
    assert!(s.screen.remove_banned_keyword("NOISE", UserRole::Admin));
    assert!(!s.screen.remove_banned_keyword("noise", UserRole::Admin));
    assert_eq!(s.screen.list_banned_keywords(), vec!["spam", "scam", "fake", "copyright", "illegal"]);
}

#[test]
fn moderation_review_requires_admin() {
    let mut s = TrackStore::new();
    let item = s
        .moderation
        .flag_content_for_moderation(ModerationTargetType::Track, "4".to_string(), "rude".to_string(), who(), 10)
        .unwrap();
    assert_eq!(item.id, 1);
    assert_eq!(item.flagged_by, Some(who()));
    assert!(!s.moderation.review_moderation_item(1, ModerationStatus::Removed, None, who(), UserRole::User, 11));
    assert!(!s.moderation.review_moderation_item(2, ModerationStatus::Removed, None, who(), UserRole::Admin, 11));
    assert!(s.moderation.review_moderation_item(1, ModerationStatus::Removed, Some("gone".to_string()), who(), UserRole::Admin, 12));
    let items = s.moderation.list_moderation_queue();
    assert_eq!(items[0].status, ModerationStatus::Removed);
    assert_eq!(items[0].reviewed_at, Some(12));
    assert_eq!(items[0].notes.as_deref(), Some("gone"));
}

#[test]
fn upload_check_covers_size_track_and_contributor() {
    let mut s = TrackStore::new();
    let id = new_track(&mut s, "Song", vec![1, 2]);
    assert_eq!(s.check_track_upload(id, MAX_FILE_SIZE, 2), Ok(()));
    assert_eq!(s.check_track_upload(id, MAX_FILE_SIZE + 1, 1), Err(UploadError::TooLarge));
    assert_eq!(s.check_track_upload(id + 1, 10, 1), Err(UploadError::TrackNotFound));
    assert_eq!(s.check_track_upload(id, 10, 3), Err(UploadError::NotAuthorized));
    assert_eq!(UploadError::TooLarge.message(), "File too large (max 10MB)");
    assert_eq!(UploadError::NotAuthorized.message(), "Not authorized to upload file for this track");
}

#[test]
fn revenue_insights_and_totals() {
    let mut s = store_with_artists(1);
    let a = new_track(&mut s, "A", vec![1, 2]);
    let b = new_track(&mut s, "B", vec![2, 2]);
    let _c = new_track(&mut s, "C", vec![3]);
    s.set_track_splits(a, vec![Split { id: 1, pct: 100 }]).unwrap();
    s.set_track_splits(b, vec![Split { id: 1, pct: 100 }]).unwrap();
    assert!(s.distribute_payment(a, 9, 30, 1));
    assert!(s.distribute_payment(b, 9, 50, 2));
    assert!(s.set_genre(a, "rock".to_string()));
    assert!(s.set_genre(b, "rock".to_string()));
    let r = s.get_revenue_insights(777);
    assert_eq!(r.total_platform_revenue, 80);
    assert_eq!(r.top_earning_tracks, vec![(b, 50), (a, 30)]);
    assert_eq!(r.top_earning_artists, vec![(2, 130), (1, 30), (3, 0)]);
    assert_eq!(r.revenue_by_genre, vec![("rock".to_string(), 80)]);
    assert_eq!(r.monthly_revenue_trend, vec![(777, 80)]);
    assert!(s.increment_play_count(a));
    assert!(s.rate_track(a, 5, 4));
    let t = s.contributor_totals(2);
    assert_eq!((t.tracks, t.plays, t.revenue, t.ratings, t.rating_sum), (2, 1, 80, 1, 4));
    let p = s.platform_totals();
    assert_eq!((p.tracks, p.plays, p.revenue), (3, 1, 80));
    let rk = s.get_platform_rankings();
    assert_eq!(rk.most_popular_genres, vec![("rock".to_string(), 2)]);
    assert_eq!(rk.most_active_users, vec![(1, 1), (2, 1), (3, 0)]);
}

#[test]
fn admin_delete_and_recent_activity() {
    let mut s = TrackStore::new();
    let a = new_track(&mut s, "A", vec![1]);
    let _b = new_track(&mut s, "B", vec![2]);
    assert!(!s.delete_track_by_admin(a, UserRole::User));
    assert!(s.get_track(a).is_some());
    assert!(s.delete_track_by_admin(a, UserRole::Admin));
    assert!(s.get_track(a).is_none());
    assert!(s.get_track_versions(a).is_empty());
    let recent = s.get_recent_activity(1);
    assert_eq!(recent.len(), 1);
    assert_eq!(recent[0].details, "Track 2 created");
    assert_eq!(s.get_recent_activity(10).len(), 2);
    assert_eq!(s.get_recent_activity(0).len(), 0);
}

#[test]
fn reviewed_item_never_returns_to_pending() {
    let mut s = TrackStore::new();
    s.moderation
        .flag_content_for_moderation(ModerationTargetType::Comment, "c".to_string(), "rude".to_string(), who(), 1)
        .unwrap();
    assert!(!s.moderation.review_moderation_item(1, ModerationStatus::Pending, None, who(), UserRole::Admin, 2));
    assert!(s.moderation.review_moderation_item(1, ModerationStatus::Approved, None, who(), UserRole::Admin, 3));
    assert!(!s.moderation.review_moderation_item(1, ModerationStatus::Pending, None, who(), UserRole::Admin, 4));
    assert_eq!(s.moderation.items[0].status, ModerationStatus::Approved);
    assert!(s.moderation.review_moderation_item(1, ModerationStatus::Removed, None, who(), UserRole::Admin, 5));
    assert_eq!(s.moderation.items[0].status, ModerationStatus::Removed);
    assert_eq!(s.moderation.items[0].reviewed_at, Some(5));
}

#[test]
fn repeated_contributor_gets_one_owner_entry() {
    let mut s = TrackStore::new();
    let t = s.create_track("Song".to_string(), "Desc".to_string(), vec![4, 2, 4], who(), 1).unwrap();
    assert_eq!(t.roles, vec![(4, TrackRole::Owner), (2, TrackRole::Owner)]);
    assert!(s.assign_role(t.id, 4, TrackRole::Viewer));
    assert_eq!(s.get_track(t.id).unwrap().roles, vec![(4, TrackRole::Viewer), (2, TrackRole::Owner)]);
}

#[test]
fn credited_balances_add_up_to_shares() {
    let mut s = store_with_artists(3);
    let id = new_track(&mut s, "Song", vec![1, 2, 3]);
    s.set_track_splits(id, vec![Split { id: 1, pct: 33 }, Split { id: 2, pct: 33 }, Split { id: 3, pct: 34 }])
        .unwrap();
    assert!(s.distribute_payment(id, 9, 101, 1));
    let credited: u64 = (1..=3).map(|a| s.ledger.get_royalty_balance(a)).sum();
    assert_eq!(credited, 100);
    assert_eq!(100 * (101 - credited), 33 + 33 + 34);
}
