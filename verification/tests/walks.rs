use nico_mylist::{
    Count, Error, Item, MylistDetail, MylistResponse, NicoError, NicoMeta, NicoResult, Owner, Page,
    PageRequest, Phase, Thumbnail, Video, Walk,
};

fn owner() -> Owner {
    Owner {
        owner_type: "user".to_string(),
        id: Some("12345".to_string()),
        name: Some("someone".to_string()),
        icon_url: None,
    }
}

fn item(item_id: usize) -> Item {
    Item {
        item_id,
        watch_id: format!("sm{}", item_id),
        description: String::new(),
        added_at: "2022-08-01T12:00:00+09:00".to_string(),
        status: "public".to_string(),
        video: Video {
            video_type: "essential".to_string(),
            id: format!("sm{}", item_id),
            title: format!("video {}", item_id),
            registered_at: "2020-01-01T00:00:00+09:00".to_string(),
            count: Count { view: 10, comment: 2, mylist: 1, like: 3 },
            thumbnail: Thumbnail {
                url: "https://example.com/thumbnail".to_string(),
                middle_url: None,
                large_url: None,
                listing_url: None,
                n_hd_url: None,
            },
            duration: 90,
            short_description: String::new(),
            latest_comment_summary: String::new(),
            is_channel_video: false,
            is_payment_required: false,
            playback_position: Some(f32::to_bits(12.5)),
            owner: owner(),
            require_sensitive_masking: false,
            video_live: None,
            n_9d091f87: true,
            n_acf68865: false,
        },
    }
}

fn items(ids: &[usize]) -> Vec<Item> {
    ids.iter().map(|id| item(*id)).collect()
}

fn detail(ids: &[usize], has_next: bool) -> MylistDetail {
    MylistDetail {
        id: 71381719,
        name: "favourites".to_string(),
        description: "what I like".to_string(),
        default_sort_key: "addedAt".to_string(),
        default_sort_order: "desc".to_string(),
        items: items(ids),
        total_item_count: 6,
        has_next,
        is_public: false,
        owner: owner(),
        has_invisible_items: false,
        follower_count: 0,
        is_following: false,
    }
}

fn page(ids: &[usize], has_next: bool) -> Page {
    NicoResult {
        meta: NicoMeta { status: 200, error_code: None },
        data: Some(MylistResponse { mylist: detail(ids, has_next) }),
    }
}

fn bare_page(status: usize) -> Page {
    NicoResult { meta: NicoMeta { status, error_code: None }, data: None }
}

fn not_found() -> Error {
    Error::Status(NicoError {
        meta: NicoMeta { status: 404, error_code: Some("NOT_FOUND".to_string()) },
    })
}

fn ids_of(page: &Page) -> Vec<usize> {
    let response = page.data.as_ref().expect("a payload");
    response.mylist.items.iter().map(|item| item.item_id).collect()
}

/// Drives a walk as a caller does: sends what is asked for, answers from the
/// script, and stops when nothing is asked for. Returns the walk as it ended,
/// the requests it made, and the answers that were never asked for.
fn drive(id: usize, script: Vec<Result<Page, Error>>) -> (Walk, Vec<PageRequest>, usize) {
    let mut answers = script.into_iter();
    let mut walk = Walk::start(id);
    let mut sent: Vec<PageRequest> = Vec::new();
    while let Some(request) = walk.next_request() {
        let Some(answer) = answers.next() else {
            break;
        };
        sent.push(request);
        assert!(walk.can_step(&answer));
        walk = walk.step(answer);
    }
    (walk, sent, answers.count())
}

#[test]
fn a_new_walk_asks_for_page_one() {
    let walk = Walk::start(71381719);
    assert_eq!(
        walk.next_request(),
        Some(PageRequest { id: 71381719, page_size: 100, page: 1 })
    );
    assert!(walk.can_step(&Ok(page(&[1], true))));
    assert!(walk.can_step(&Err(not_found())));
    assert!(walk.outcome().is_none());
}

#[test]
fn one_page_of_three_items_is_the_whole_mylist() {
    let (walk, sent, unused) = drive(71381719, vec![Ok(page(&[1, 2, 3], false))]);
    assert_eq!(sent, vec![PageRequest { id: 71381719, page_size: 100, page: 1 }]);
    assert_eq!(unused, 0);
    assert!(walk.next_request().is_none());
    let result = walk.outcome().expect("the walk has ended").expect("a result");
    assert_eq!(result.data.as_ref().expect("a payload").mylist.items.len(), 3);
    assert_eq!(result, page(&[1, 2, 3], false));
}

#[test]
fn a_single_page_ends_the_walk_before_any_further_answer() {
    let script = vec![Ok(page(&[1, 2, 3], false)), Ok(page(&[4], false))];
    let (walk, sent, unused) = drive(71381719, script);
    assert_eq!(sent.len(), 1);
    assert_eq!(unused, 1);
    let result = walk.outcome().expect("the walk has ended").expect("a result");
    assert_eq!(ids_of(&result), vec![1, 2, 3]);
}

#[test]
fn an_empty_single_page_is_returned_as_it_came() {
    let (walk, sent, _) = drive(9, vec![Ok(page(&[], false))]);
    assert_eq!(sent, vec![PageRequest { id: 9, page_size: 100, page: 1 }]);
    let result = walk.outcome().expect("the walk has ended").expect("a result");
    assert_eq!(result, page(&[], false));
}

#[test]
fn a_first_page_without_payload_ends_the_walk() {
    let script = vec![Ok(bare_page(200)), Ok(page(&[1], false))];
    let (walk, sent, unused) = drive(71381719, script);
    assert_eq!(sent, vec![PageRequest { id: 71381719, page_size: 100, page: 1 }]);
    assert_eq!(unused, 1);
    let result = walk.outcome().expect("the walk has ended").expect("a result");
    assert_eq!(result, bare_page(200));
}

#[test]
fn pages_are_gathered_in_page_order() {
    let script = vec![
        Ok(page(&[11, 12], true)),
        Ok(page(&[21], true)),
        Ok(page(&[31, 32, 33], false)),
    ];
    let (walk, sent, unused) = drive(71381719, script);
    assert_eq!(
        sent,
        vec![
            PageRequest { id: 71381719, page_size: 100, page: 1 },
            PageRequest { id: 71381719, page_size: 100, page: 2 },
            PageRequest { id: 71381719, page_size: 100, page: 3 },
        ]
    );
    assert_eq!(unused, 0);
    let result = walk.outcome().expect("the walk has ended").expect("a result");
    assert_eq!(ids_of(&result), vec![11, 12, 21, 31, 32, 33]);
}

#[test]
fn two_pages_are_the_first_with_the_second_behind() {
    let script = vec![Ok(page(&[1, 2], true)), Ok(page(&[3], false))];
    let (walk, sent, _) = drive(5, script);
    assert_eq!(sent.len(), 2);
    assert_eq!(sent[1], PageRequest { id: 5, page_size: 100, page: 2 });
    let result = walk.outcome().expect("the walk has ended").expect("a result");
    assert_eq!(result, page(&[1, 2, 3], true));
}

#[test]
fn the_result_keeps_the_first_page_but_for_its_items() {
    let mut second = page(&[3], false);
    second.meta = NicoMeta { status: 206, error_code: Some("LATER".to_string()) };
    if let Some(response) = second.data.as_mut() {
        response.mylist.name = "renamed meanwhile".to_string();
        response.mylist.total_item_count = 99;
    }
    let (walk, _, _) = drive(5, vec![Ok(page(&[1, 2], true)), Ok(second)]);
    let result = walk.outcome().expect("the walk has ended").expect("a result");
    assert_eq!(result.meta, NicoMeta { status: 200, error_code: None });
    let mylist = &result.data.as_ref().expect("a payload").mylist;
    assert_eq!(mylist.name, "favourites");
    assert_eq!(mylist.total_item_count, 6);
    assert!(mylist.has_next);
    assert_eq!(ids_of(&result), vec![1, 2, 3]);
}

#[test]
fn empty_pages_in_between_add_nothing() {
    let script = vec![Ok(page(&[1], true)), Ok(page(&[], true)), Ok(page(&[2], false))];
    let (walk, sent, _) = drive(5, script);
    assert_eq!(sent.len(), 3);
    let result = walk.outcome().expect("the walk has ended").expect("a result");
    assert_eq!(ids_of(&result), vec![1, 2]);
}

#[test]
fn a_later_page_without_payload_ends_the_walk_with_what_came() {
    let script = vec![
        Ok(page(&[1, 2], true)),
        Ok(page(&[3], true)),
        Ok(bare_page(200)),
        Ok(page(&[4], false)),
    ];
    let (walk, sent, unused) = drive(5, script);
    assert_eq!(sent.len(), 3);
    assert_eq!(unused, 1);
    let result = walk.outcome().expect("the walk has ended").expect("a result");
    assert_eq!(result, page(&[1, 2, 3], true));
}

#[test]
fn a_failure_on_page_one_fails_the_walk() {
    let (walk, sent, unused) = drive(5, vec![Err(not_found()), Ok(page(&[1], false))]);
    assert_eq!(sent, vec![PageRequest { id: 5, page_size: 100, page: 1 }]);
    assert_eq!(unused, 1);
    match walk.outcome() {
        Some(Err(Error::Status(envelope))) => {
            assert_eq!(envelope.meta.status, 404);
            assert_eq!(envelope.meta.error_code.as_deref(), Some("NOT_FOUND"));
        },
        other => panic!("expected the failure, got {:?}", other),
    }
}

#[test]
fn a_failure_on_a_later_page_drops_what_was_gathered() {
    let script = vec![
        Ok(page(&[1, 2], true)),
        Ok(page(&[3], true)),
        Err(not_found()),
        Ok(page(&[4], false)),
    ];
    let (walk, sent, unused) = drive(5, script);
    assert_eq!(sent.len(), 3);
    assert_eq!(sent[2], PageRequest { id: 5, page_size: 100, page: 3 });
    assert_eq!(unused, 1);
    assert!(walk.next_request().is_none());
    assert!(matches!(walk.phase, Phase::Failed(Error::Status(_))));
    assert!(matches!(walk.outcome(), Some(Err(Error::Status(_)))));
}

#[test]
fn a_decoding_failure_is_handed_on_with_its_body() {
    let error = serde_json::from_str::<serde_json::Value>("[").expect_err("cut short");
    let (walk, _, _) =
        drive(5, vec![Ok(page(&[1], true)), Err(Error::Json(error, "[".to_string()))]);
    match walk.outcome() {
        Some(Err(Error::Json(_, body))) => assert_eq!(body, "["),
        other => panic!("expected the failure, got {:?}", other),
    }
}

#[test]
fn a_walk_in_progress_has_no_outcome() {
    let walk = Walk::start(5).step(Ok(page(&[1], true)));
    assert_eq!(walk.next_request(), Some(PageRequest { id: 5, page_size: 100, page: 2 }));
    match &walk.phase {
        Phase::Accumulating { page, extra, .. } => {
            assert_eq!(*page, 2);
            assert!(extra.is_empty());
        },
        other => panic!("expected a walk in progress, got {:?}", other),
    }
    assert!(walk.outcome().is_none());
}

#[test]
fn an_ended_walk_ignores_further_events() {
    let done = Walk::start(5).step(Ok(page(&[1], false)));
    let done = done.step(Ok(page(&[2], true)));
    let done = done.step(Err(not_found()));
    assert!(done.next_request().is_none());
    let result = done.outcome().expect("the walk has ended").expect("a result");
    assert_eq!(result, page(&[1], false));

    let failed = Walk::start(5).step(Err(not_found()));
    let failed = failed.step(Ok(page(&[2], false)));
    assert!(failed.next_request().is_none());
    assert!(matches!(failed.outcome(), Some(Err(Error::Status(_)))));
}

fn walk_awaiting(page_number: usize) -> Walk {
    let (meta, first) = match page(&[1], true) {
        NicoResult { meta, data: Some(response) } => (meta, response.mylist),
        _ => unreachable!(),
    };
    Walk {
        id: 5,
        phase: Phase::Accumulating { page: page_number, meta, first, extra: items(&[2]) },
    }
}

#[test]
fn a_walk_at_the_last_page_number_cannot_go_further() {
    let walk = walk_awaiting(usize::MAX);
    assert_eq!(
        walk.next_request(),
        Some(PageRequest { id: 5, page_size: 100, page: usize::MAX })
    );
    assert!(!walk.can_step(&Ok(page(&[3], true))));
}

#[test]
fn a_walk_at_the_last_page_number_can_still_end() {
    let walk = walk_awaiting(usize::MAX);
    assert!(walk.can_step(&Ok(page(&[3], false))));
    assert!(walk.can_step(&Ok(bare_page(200))));
    assert!(walk.can_step(&Err(not_found())));
    let walk = walk.step(Ok(page(&[3], false)));
    let result = walk.outcome().expect("the walk has ended").expect("a result");
    assert_eq!(ids_of(&result), vec![1, 2, 3]);
}

#[test]
fn a_walk_just_below_the_last_page_number_steps_once_more() {
    let walk = walk_awaiting(usize::MAX - 1);
    assert!(walk.can_step(&Ok(page(&[3], true))));
    let walk = walk.step(Ok(page(&[3], true)));
    assert_eq!(
        walk.next_request(),
        Some(PageRequest { id: 5, page_size: 100, page: usize::MAX })
    );
    assert!(!walk.can_step(&Ok(page(&[4], true))));
}

#[test]
fn an_ended_walk_can_take_anything() {
    let done = Walk::start(5).step(Ok(page(&[1], false)));
    assert!(done.can_step(&Ok(page(&[2], true))));
    assert!(done.can_step(&Err(not_found())));
}

#[test]
fn each_request_of_a_walk_has_its_address() {
    let (_, sent, _) = drive(71381719, vec![Ok(page(&[1], true)), Ok(page(&[2], false))]);
    let addresses: Vec<String> = sent
        .iter()
        .map(|request| request.url().expect("the address parses").as_str().to_string())
        .collect();
    assert_eq!(
        addresses,
        vec![
            "https://nvapi.nicovideo.jp/v1/users/me/mylists/71381719?pageSize=100&page=1",
            "https://nvapi.nicovideo.jp/v1/users/me/mylists/71381719?pageSize=100&page=2",
        ]
    );
}

#[test]
fn a_transport_failure_is_handed_on() {
    let failure = reqwest::Client::new()
        .get("this is no address")
        .build()
        .expect_err("the address is refused");
    let (walk, sent, _) = drive(5, vec![Ok(page(&[1], true)), Err(Error::Http(failure))]);
    assert_eq!(sent.len(), 2);
    match walk.outcome() {
        Some(Err(Error::Http(error))) => assert!(error.is_builder()),
        other => panic!("expected the failure, got {:?}", other),
    }
}

#[test]
fn pages_with_payloads_gather_into_a_result_with_one() {
    let script = vec![
        Ok(page(&[1], true).into_required().expect("a payload").into_optional()),
        Ok(page(&[2, 3], false)),
    ];
    let (walk, _, _) = drive(5, script);
    let result = walk.outcome().expect("the walk has ended").expect("a result");
    let strict = result.into_required().expect("a payload");
    assert_eq!(strict.data.mylist.items.len(), 3);
    assert_eq!(strict.meta, NicoMeta { status: 200, error_code: None });
}
