use echo::spotify::constants::{SPOTIFY_TRACKS_LIMIT, SPOTIFY_URIS_LIMIT};
use echo::spotify::params::{gather_pages, SpotifyAddItemsParams, SpotifyReadTracksParams, SpotifyReadTracksPlan};

fn window(offset: u32, limit: u32) -> SpotifyReadTracksParams {
    SpotifyReadTracksParams { offset, limit }
}

fn numbered_uris(n: u32) -> Vec<String> {
    (0..n).map(|val| val.to_string()).collect()
}

#[test]
fn parallel_read_params_have_correct_offsets() {
    let params = SpotifyReadTracksParams::new_async(0, 183);
    assert_eq!(
        params[0],
        SpotifyReadTracksParams {
            offset: 0,
            limit: SPOTIFY_TRACKS_LIMIT
        },
        "The first item should be the params for the first tracks in the playlist"
    );
    assert_eq!(
        params[1],
        SpotifyReadTracksParams {
            offset: SPOTIFY_TRACKS_LIMIT,
            limit: SPOTIFY_TRACKS_LIMIT
        }
    );
    assert_eq!(
        params[2],
        SpotifyReadTracksParams {
            offset: SPOTIFY_TRACKS_LIMIT * 2,
            limit: SPOTIFY_TRACKS_LIMIT
        }
    );
    assert_eq!(
        params.last().unwrap().clone(),
        SpotifyReadTracksParams {
            offset: SPOTIFY_TRACKS_LIMIT * 3,
            limit: 33
        },
        "The last item should be the params for the last tracks in the playlist"
    )
}

#[test]
fn add_items_params_while_loop() {
    let uris: Vec<String> = (0..150).map(|val| val.to_string()).collect();
    let mut params = SpotifyAddItemsParams::new(uris, None);
    assert!(
        params.request_limit_exceeded() && params.request_required(),
        "Request should be exceeded and required"
    );
    assert!(
        params.next_items().len() == SPOTIFY_URIS_LIMIT,
        "We can only send the uri limit"
    );
    assert!(
        params.position == None,
        "Never provided the original position so we should continue to not have a position"
    );
    let n = params.next_items();
    assert_eq!(
        params.request_limit_exceeded(),
        false,
        "The remaining limit is 50"
    );
    assert!(n.len() == 50, "The remaining limit should be 50");
    assert_eq!(params.request_required(), false);
}

#[test]
fn parallel_plan_of_183_tracks() {
    let params = SpotifyReadTracksParams::new_async(0, 183);
    assert_eq!(params, vec![window(0, 50), window(50, 50), window(100, 50), window(150, 33)]);
}

#[test]
fn parallel_plan_of_150_tracks_has_no_empty_tail() {
    let params = SpotifyReadTracksParams::new_async(0, 150);
    assert_eq!(params, vec![window(0, 50), window(50, 50), window(100, 50)]);
}

#[test]
fn parallel_plan_of_short_range_is_one_window() {
    assert_eq!(SpotifyReadTracksParams::new_async(7, 20), vec![window(7, 20)]);
    assert_eq!(SpotifyReadTracksParams::new_async(7, 50), vec![window(7, 50)]);
    assert_eq!(SpotifyReadTracksParams::new_async(3, 0), vec![window(3, 0)]);
}

#[test]
fn parallel_plan_starts_at_offset() {
    let params = SpotifyReadTracksParams::new_async(10, 120);
    assert_eq!(params, vec![window(10, 50), window(60, 50), window(110, 20)]);
}

#[test]
fn default_window_is_first_page() {
    assert_eq!(SpotifyReadTracksParams::default(), window(0, 50));
}

fn drain_plan(offset: u32, limit: u32) -> Vec<SpotifyReadTracksParams> {
    let mut plan = SpotifyReadTracksPlan::new(offset, limit);
    let mut out = vec![];
    while plan.request_limit_exceeded() || plan.request_required() {
        out.push(plan.next_window());
    }
    out
}

#[test]
fn sequential_plan_sums_to_limit() {
    for limit in [0u32, 1, 49, 50, 51, 100, 149, 150, 183, 1000] {
        let windows = drain_plan(5, limit);
        let total: u32 = windows.iter().map(|w| w.limit).sum();
        assert_eq!(total, limit);
        for (i, w) in windows.iter().enumerate() {
            assert_eq!(w.offset, 5 + 50 * i as u32);
            assert!(w.limit > 0);
            if i + 1 < windows.len() {
                assert_eq!(w.limit, 50);
            }
        }
    }
}

#[test]
fn sequential_plan_matches_parallel_plan() {
    assert_eq!(drain_plan(0, 183), SpotifyReadTracksParams::new_async(0, 183));
    assert_eq!(drain_plan(0, 150), vec![window(0, 50), window(50, 50), window(100, 50)]);
}

#[test]
fn empty_sequential_plan_is_finished() {
    let plan = SpotifyReadTracksPlan::new(0, 0);
    assert!(!plan.request_required());
    assert!(!plan.request_limit_exceeded());
}

#[test]
fn write_plan_without_position() {
    let mut params = SpotifyAddItemsParams::new(numbered_uris(150), None);
    let first = params.next_items();
    assert_eq!(first.len(), 100);
    assert_eq!(first[0], "0");
    assert_eq!(first[99], "99");
    assert!(!params.request_limit_exceeded());
    assert_eq!(params.position, None);
    assert!(params.request_required());
    let second = params.next_items();
    assert_eq!(second.len(), 50);
    assert_eq!(second[0], "100");
    assert_eq!(second[49], "149");
    assert!(!params.request_required());
}

#[test]
fn write_plan_advances_position() {
    let mut params = SpotifyAddItemsParams::new(numbered_uris(150), Some(0));
    params.next_items();
    assert_eq!(params.position, Some(100));
    params.next_items();
    assert_eq!(params.position, Some(100));
    assert!(!params.request_required());
}

#[test]
fn write_plan_of_exactly_one_batch() {
    let mut params = SpotifyAddItemsParams::new(numbered_uris(100), Some(4));
    assert!(!params.request_limit_exceeded());
    assert!(params.request_required());
    assert_eq!(params.next_items().len(), 100);
    assert_eq!(params.position, Some(4));
    assert!(!params.request_required());
}

#[test]
fn write_plan_of_two_full_batches() {
    let mut params = SpotifyAddItemsParams::new(numbered_uris(200), Some(1));
    assert_eq!(params.next_items().len(), 100);
    assert_eq!(params.position, Some(101));
    assert!(params.request_required());
    assert_eq!(params.next_items().len(), 100);
    assert!(!params.request_required());
}

#[test]
fn empty_write_plan_is_finished() {
    let params = SpotifyAddItemsParams::new(vec![], None);
    assert!(!params.request_required());
    assert!(!params.request_limit_exceeded());
}

#[test]
fn queries_do_not_change_plans() {
    let mut params = SpotifyAddItemsParams::new(numbered_uris(150), Some(0));
    for _ in 0..5 {
        assert!(params.request_required());
        assert!(params.request_limit_exceeded());
    }
    assert_eq!(params.position, Some(0));
    assert_eq!(params.next_items().len(), 100);
    let plan = SpotifyReadTracksPlan::new(0, 120);
    for _ in 0..5 {
        assert!(plan.request_required());
        assert!(plan.request_limit_exceeded());
    }
    let mut plan = plan;
    assert_eq!(plan.next_window(), window(0, 50));
}

#[test]
fn gathered_pages_keep_order() {
    let results: Vec<Result<u32, String>> = vec![Ok(1), Ok(2), Ok(3)];
    assert_eq!(gather_pages(results), Ok(vec![1, 2, 3]));
}

#[test]
fn gathered_pages_report_first_error() {
    let results: Vec<Result<u32, String>> =
        vec![Ok(1), Err("first".to_string()), Ok(3), Err("second".to_string())];
    assert_eq!(gather_pages(results), Err("first".to_string()));
    let empty: Vec<Result<u32, String>> = vec![];
    assert_eq!(gather_pages(empty), Ok(vec![]));
}

#[test]
fn plans_reach_the_last_offset() {
    let params = SpotifyReadTracksParams::new_async(u32::MAX - 99, 100);
    assert_eq!(params, vec![window(u32::MAX - 99, 50), window(u32::MAX - 49, 50)]);
    assert_eq!(drain_plan(u32::MAX - 99, 100), params);
    assert_eq!(drain_plan(u32::MAX, 1), vec![window(u32::MAX, 1)]);
}

#[test]
fn write_plan_cursor_at_the_top() {
    let mut params = SpotifyAddItemsParams::new(numbered_uris(1), Some(u32::MAX));
    assert_eq!(params.position(), Some(u32::MAX));
    let (items, at) = params.next_items_at();
    assert_eq!(items, vec!["0"]);
    assert_eq!(at, Some(u32::MAX));
    assert!(!params.request_required());
}

#[test]
fn batches_come_with_their_cursor() {
    let mut params = SpotifyAddItemsParams::new(numbered_uris(250), Some(7));
    let (first, at_first) = params.next_items_at();
    assert_eq!((first.len(), at_first), (100, Some(7)));
    let (second, at_second) = params.next_items_at();
    assert_eq!((second.len(), at_second), (100, Some(107)));
    let (third, at_third) = params.next_items_at();
    assert_eq!((third.len(), at_third), (50, Some(207)));
    assert_eq!(third[0], "200");
    assert_eq!(params.position(), Some(207));
    assert!(!params.request_required());
}
