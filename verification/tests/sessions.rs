use garden::session::{Action, Event, Stage};

fn reply(line: &str) -> Event {
    Event::Replied {
        line: line.to_string(),
    }
}

fn edited(contents: &str) -> Event {
    Event::Edited {
        contents: contents.to_string(),
    }
}

/// Runs a session against a garden held in memory, the editor leaving behind
/// `contents` and the author typing `replies` in turn. Returns the name the
/// note was published under.
fn publish(
    garden: &mut Vec<(String, String)>,
    title: Option<&str>,
    contents: Option<&str>,
    replies: &[&str],
) -> String {
    let mut stage = Stage::begin(title.map(|t| t.to_string()));
    let mut replies = replies.iter();
    let mut scratch = String::new();
    loop {
        let event = match stage.request() {
            Action::Edit { seed } => {
                scratch = match contents {
                    Some(text) => text.to_string(),
                    None => seed,
                };
                edited(&scratch)
            }
            Action::Ask { .. } => reply(replies.next().expect("a reply for every question")),
            Action::Probe { name } => Event::Probed {
                taken: garden.iter().any(|(held, _)| *held == name),
            },
            Action::Move { name } => {
                assert!(garden.iter().all(|(held, _)| *held != name));
                garden.push((name, scratch.clone()));
                Event::Moved
            }
            Action::Stop => break,
        };
        assert!(stage.accepts(&event));
        stage = stage.advance(event);
    }
    assert!(replies.next().is_none());
    stage.published().expect("a published note").to_string()
}

#[test]
fn a_run_starts_by_editing_a_seeded_note() {
    assert_eq!(
        Stage::begin(Some("Notes".to_string())).request(),
        Action::Edit {
            seed: "# Notes".to_string()
        }
    );
    assert_eq!(
        Stage::begin(None).request(),
        Action::Edit {
            seed: "# ".to_string()
        }
    );
}

#[test]
fn explicit_title_confirmed_by_silence_lands_in_an_empty_garden() {
    let mut garden: Vec<(String, String)> = Vec::new();
    let name = publish(&mut garden, Some("Notes"), None, &[""]);
    assert_eq!(name, "notes.md");
    assert_eq!(garden, vec![("notes.md".to_string(), "# Notes".to_string())]);
}

#[test]
fn a_supplied_title_is_offered_even_if_the_document_differs() {
    let stage = Stage::begin(Some("Given".to_string())).advance(edited("# Written\nbody"));
    assert_eq!(
        stage,
        Stage::Confirming {
            candidate: "Given".to_string()
        }
    );
    assert_eq!(
        stage.request(),
        Action::Ask {
            question: "current title \x1b[32m\x1b[1mGiven\x1b[0m\x1b[39m\nDo you want a different title? (y/\x1b[1mN\x1b[0m): "
                .to_string()
        }
    );
}

#[test]
fn a_heading_in_the_document_is_offered_as_the_title() {
    let stage = Stage::begin(None).advance(edited("intro\n# My Title\nbody"));
    assert_eq!(
        stage,
        Stage::Confirming {
            candidate: "My Title".to_string()
        }
    );
}

#[test]
fn a_document_without_heading_goes_straight_to_entry() {
    let stage = Stage::begin(None).advance(edited("no heading here"));
    assert_eq!(stage, Stage::Entering);
    assert_eq!(
        stage.request(),
        Action::Ask {
            question: "\x1b[1m\x1b[34mEnter filename\n> \x1b[39m\x1b[0m".to_string()
        }
    );
    let stage = stage.advance(reply("Typed Title"));
    assert_eq!(
        stage,
        Stage::Probing {
            slug: "typed-title".to_string(),
            attempt: 0
        }
    );
}

#[test]
fn an_empty_reply_keeps_the_candidate_without_asking_for_entry() {
    let stage = Stage::Confirming {
        candidate: "Hello World".to_string(),
    }
    .advance(reply(""));
    assert_eq!(
        stage,
        Stage::Probing {
            slug: "hello-world".to_string(),
            attempt: 0
        }
    );
}

#[test]
fn an_unclear_reply_repeats_the_question() {
    let stage = Stage::Confirming {
        candidate: "Hello World".to_string(),
    };
    let again = stage.clone().advance(reply("perhaps"));
    assert_eq!(again, stage);
    assert_eq!(again.request(), stage.request());
}

#[test]
fn yes_then_a_new_title_names_the_note() {
    let mut garden: Vec<(String, String)> = Vec::new();
    let name = publish(
        &mut garden,
        None,
        Some("# Draft\ntext"),
        &["?", "y", "Final Name"],
    );
    assert_eq!(name, "final-name.md");
    assert_eq!(
        garden,
        vec![("final-name.md".to_string(), "# Draft\ntext".to_string())]
    );
}

#[test]
fn probing_walks_the_candidates_in_order() {
    let mut stage = Stage::Probing {
        slug: "slug".to_string(),
        attempt: 0,
    };
    let expected = ["slug.md", "slug-01.md", "slug-02.md", "slug-03.md"];
    for name in expected {
        assert_eq!(
            stage.request(),
            Action::Probe {
                name: name.to_string()
            }
        );
        stage = stage.advance(Event::Probed { taken: true });
    }
    assert_eq!(
        stage,
        Stage::Probing {
            slug: "slug".to_string(),
            attempt: 4
        }
    );
}

#[test]
fn a_free_name_is_moved_onto() {
    let stage = Stage::Probing {
        slug: "slug".to_string(),
        attempt: 2,
    }
    .advance(Event::Probed { taken: false });
    assert_eq!(
        stage,
        Stage::Moving {
            name: "slug-02.md".to_string()
        }
    );
    assert_eq!(
        stage.request(),
        Action::Move {
            name: "slug-02.md".to_string()
        }
    );
    let stage = stage.advance(Event::Moved);
    assert_eq!(
        stage,
        Stage::Published {
            name: "slug-02.md".to_string()
        }
    );
    assert_eq!(stage.request(), Action::Stop);
    assert_eq!(stage.published(), Some("slug-02.md"));
}

#[test]
fn collisions_escalate_past_every_taken_name() {
    let mut garden: Vec<(String, String)> = ["slug.md", "slug-01.md", "slug-02.md", "slug-03.md", "slug-04.md", "slug-05.md"]
        .iter()
        .map(|name| (name.to_string(), "old".to_string()))
        .collect();
    let name = publish(&mut garden, Some("Slug"), Some("new"), &["n"]);
    assert_eq!(name, "slug-06.md");
    assert_eq!(garden.len(), 7);
    assert!(garden[..6].iter().all(|(_, text)| text == "old"));
    assert_eq!(garden[6], ("slug-06.md".to_string(), "new".to_string()));
}

#[test]
fn repeated_publishing_never_replaces_a_note() {
    let mut garden: Vec<(String, String)> = Vec::new();
    let mut round: u64 = 0;
    while round < 12 {
        let text = format!("# Same Title\nround {}", round);
        let before = garden.clone();
        let name = publish(&mut garden, None, Some(&text), &[""]);
        assert!(before.iter().all(|(held, _)| *held != name));
        assert_eq!(garden[..before.len()], before[..]);
        round += 1;
    }
    let names: Vec<&str> = garden.iter().map(|(name, _)| name.as_str()).collect();
    assert_eq!(names[0], "same-title.md");
    assert_eq!(names[1], "same-title-01.md");
    assert_eq!(names[11], "same-title-11.md");
}

#[test]
fn a_failed_move_leaves_the_run_waiting_to_move() {
    let stage = Stage::Moving {
        name: "slug.md".to_string(),
    };
    assert_eq!(stage.published(), None);
    assert_eq!(
        stage.request(),
        Action::Move {
            name: "slug.md".to_string()
        }
    );
}

#[test]
fn events_that_answer_nothing_change_nothing() {
    let stages = [
        Stage::begin(None),
        Stage::Confirming {
            candidate: "c".to_string(),
        },
        Stage::Entering,
        Stage::Probing {
            slug: "s".to_string(),
            attempt: 3,
        },
        Stage::Moving {
            name: "s.md".to_string(),
        },
        Stage::Published {
            name: "s.md".to_string(),
        },
    ];
    let events = [edited("# t"), reply("y"), Event::Probed { taken: false }, Event::Moved];
    let answers = [Some(0), Some(1), Some(1), Some(2), Some(3), None];
    for (stage, answer) in stages.iter().zip(answers) {
        for (i, event) in events.iter().enumerate() {
            if Some(i) != answer {
                assert_eq!(stage.clone().advance(event.clone()), *stage);
            }
        }
    }
}

#[test]
fn only_an_exhausted_counter_is_refused() {
    let last = Stage::Probing {
        slug: "s".to_string(),
        attempt: u64::MAX,
    };
    assert!(!last.accepts(&Event::Probed { taken: true }));
    assert!(last.accepts(&Event::Probed { taken: false }));
    assert!(last.accepts(&Event::Moved));
    assert_eq!(
        last.advance(Event::Probed { taken: false }),
        Stage::Moving {
            name: "s-18446744073709551615.md".to_string()
        }
    );
    let early = Stage::Probing {
        slug: "s".to_string(),
        attempt: 7,
    };
    assert!(early.accepts(&Event::Probed { taken: true }));
    assert!(Stage::Entering.accepts(&Event::Probed { taken: true }));
}

#[test]
fn an_empty_title_still_publishes() {
    let mut garden: Vec<(String, String)> = Vec::new();
    let name = publish(&mut garden, Some(""), None, &[""]);
    assert_eq!(name, ".md");
    let name = publish(&mut garden, None, Some("text"), &[""]);
    assert_eq!(name, "-01.md");
}
