use bootmux::layout::{
    ceil_sqrt, div_ceil, parse_tmux_layout, tmux_layout_checksum, CombineError, Layout,
    LayoutError, LayoutPreset, Ratio, Rectangle, SplitDirection,
};
use bootmux::pane_chain::{replace_pane, validate_pane_share, PaneChainBuilder};

fn share(ratio: &Ratio) -> f64 {
    ratio.first as f64 / ratio.whole as f64
}

fn assert_close(actual: f64, expected: f64) {
    assert!(
        (actual - expected).abs() < 1e-9,
        "expected {expected}, got {actual}"
    );
}

fn leaf_shares(layout: &Layout) -> Vec<(usize, f64)> {
    fn visit(layout: &Layout, area: f64, result: &mut Vec<(usize, f64)>) {
        match layout {
            Layout::Pane(index) => result.push((*index, area)),
            Layout::Split {
                ratio,
                first,
                second,
                ..
            } => {
                visit(first, area * share(ratio), result);
                visit(second, area * (1.0 - share(ratio)), result);
            }
        }
    }

    let mut result = Vec::new();
    visit(layout, 1.0, &mut result);
    result
}

fn with_checksum(payload: &str) -> String {
    format!("{:04x},{payload}", tmux_layout_checksum(payload))
}

fn ratio(first: u64, whole: u64) -> Ratio {
    Ratio { first, whole }
}

#[test]
fn split_constructor_and_validation_reject_invalid_trees() {
    let layout = Layout::split(
        SplitDirection::Right,
        ratio(2, 5),
        Layout::Pane(2),
        Layout::Pane(3),
    )
    .unwrap();
    assert_eq!(layout.pane_indices(), vec![2, 3]);
    assert_eq!(layout.pane_count(), 2);
    assert!(layout.contains_pane(3));
    assert!(!layout.contains_pane(4));

    assert!(matches!(
        Layout::split(SplitDirection::Down, ratio(0, 1), Layout::Pane(0), Layout::Pane(1)),
        Err(LayoutError::InvalidRatio { .. })
    ));
    assert!(matches!(
        Layout::split(SplitDirection::Down, ratio(1, 0), Layout::Pane(0), Layout::Pane(1)),
        Err(LayoutError::InvalidRatio { .. })
    ));
    assert_eq!(
        Layout::split(SplitDirection::Right, ratio(1, 2), Layout::Pane(7), Layout::Pane(7)),
        Err(LayoutError::DuplicatePane { index: 7 })
    );
}

#[test]
fn tiled_uses_ceil_sqrt_columns_and_balanced_equal_rows() {
    let layout = Layout::default_tiled(7).unwrap();
    assert_eq!(layout.pane_indices(), (0..7).collect::<Vec<_>>());

    // ceil(sqrt(7)) is three. Three balanced rows therefore contain
    // [0,1,2], [3,4], and [5,6], and all rows get one third height.
    let Layout::Split {
        direction,
        ratio,
        first,
        second,
    } = &layout
    else {
        panic!("seven tiled panes need multiple rows");
    };
    assert_eq!(*direction, SplitDirection::Down);
    assert_close(share(ratio), 1.0 / 3.0);
    assert_eq!(first.pane_indices(), vec![0, 1, 2]);
    assert_eq!(second.pane_indices(), vec![3, 4, 5, 6]);

    let Layout::Split {
        direction,
        ratio,
        first,
        second,
    } = second.as_ref()
    else {
        panic!("the remaining two rows need a split");
    };
    assert_eq!(*direction, SplitDirection::Down);
    assert_close(share(ratio), 0.5);
    assert_eq!(first.pane_indices(), vec![3, 4]);
    assert_eq!(second.pane_indices(), vec![5, 6]);
}

#[test]
fn tiled_handles_square_single_and_empty_counts() {
    assert_eq!(Layout::default_tiled(1).unwrap(), Layout::Pane(0));
    assert_eq!(
        Layout::default_tiled(4).unwrap().pane_indices(),
        vec![0, 1, 2, 3]
    );
    assert_eq!(Layout::default_tiled(0), Err(LayoutError::Empty));
    assert_eq!(ceil_sqrt(usize::MAX), 1_usize << (usize::BITS / 2));
}

#[test]
fn even_layouts_give_every_leaf_an_equal_share() {
    for (layout, expected_direction) in [
        (Layout::even_horizontal(5).unwrap(), SplitDirection::Right),
        (Layout::even_vertical(5).unwrap(), SplitDirection::Down),
    ] {
        let Layout::Split { direction, .. } = layout else {
            panic!("five panes need a split");
        };
        assert_eq!(direction, expected_direction);
        for (pane, share) in leaf_shares(&layout) {
            assert_eq!(pane, layout.pane_indices()[pane]);
            assert_close(share, 0.2);
        }
    }
}

#[test]
fn large_equal_layouts_use_herdr_representable_balanced_splits() {
    fn assert_balanced_ratios(layout: &Layout) {
        if let Layout::Split {
            ratio,
            first,
            second,
            ..
        } = layout
        {
            assert!((0.1..=0.9).contains(&share(ratio)));
            assert_balanced_ratios(first);
            assert_balanced_ratios(second);
        }
    }

    for layout in [
        Layout::even_horizontal(11).unwrap(),
        Layout::even_vertical(64).unwrap(),
    ] {
        assert_balanced_ratios(&layout);
        let shares = leaf_shares(&layout);
        let expected_share = 1.0 / shares.len() as f64;
        for (_, share) in shares {
            assert_close(share, expected_share);
        }
    }
}

#[test]
fn main_layouts_reserve_half_for_first_pane() {
    for (layout, outer, inner) in [
        (
            Layout::main_horizontal(4).unwrap(),
            SplitDirection::Down,
            SplitDirection::Right,
        ),
        (
            Layout::main_vertical(4).unwrap(),
            SplitDirection::Right,
            SplitDirection::Down,
        ),
    ] {
        let Layout::Split {
            direction,
            ratio,
            first,
            second,
        } = &layout
        else {
            panic!("four panes need a split");
        };
        assert_eq!(*direction, outer);
        assert_close(share(ratio), 0.5);
        assert_eq!(first.as_ref(), &Layout::Pane(0));
        assert!(matches!(
            second.as_ref(),
            Layout::Split { direction, .. } if *direction == inner
        ));

        let shares = leaf_shares(&layout);
        assert_close(shares[0].1, 0.5);
        for (_, share) in &shares[1..] {
            assert_close(*share, 1.0 / 6.0);
        }
    }
    assert_eq!(Layout::main_vertical(1).unwrap(), Layout::Pane(0));
}

#[test]
fn presets_round_trip_their_stable_names() {
    for preset in [
        LayoutPreset::Tiled,
        LayoutPreset::EvenHorizontal,
        LayoutPreset::EvenVertical,
        LayoutPreset::MainHorizontal,
        LayoutPreset::MainVertical,
    ] {
        assert_eq!(preset.as_str().parse::<LayoutPreset>().unwrap(), preset);
        assert_eq!(preset.to_string(), preset.as_str());
        assert_eq!(preset.build(3).unwrap().pane_indices(), vec![0, 1, 2]);
    }
    assert!("diagonal".parse::<LayoutPreset>().is_err());
    assert_eq!(
        "diagonal".parse::<LayoutPreset>().unwrap_err().message(),
        "unknown layout preset \"diagonal\""
    );
}

#[test]
fn checksum_matches_layouts_emitted_by_tmux() {
    let payload = "120x40,0,0{40x40,0,0,0,39x40,41,0,1,39x40,81,0,2}";
    assert_eq!(tmux_layout_checksum(payload), 0x6864);
}

#[test]
fn parses_tmux_nary_horizontal_layout_into_bsp() {
    let serialized = "6864,120x40,0,0{40x40,0,0,0,39x40,41,0,1,39x40,81,0,2}";
    let layout = parse_tmux_layout(serialized).unwrap();
    assert_eq!(layout.pane_indices(), vec![0, 1, 2]);

    let Layout::Split {
        direction,
        ratio,
        first,
        second,
    } = layout
    else {
        panic!("three panes need a split");
    };
    assert_eq!(direction, SplitDirection::Right);
    // The second subtree spans 79 columns: pane widths 39 + 39 and its
    // own divider. The outer divider is excluded from the ratio.
    assert_close(share(&ratio), 40.0 / (40.0 + 79.0));
    assert_eq!(*first, Layout::Pane(0));
    assert!(matches!(
        *second,
        Layout::Split {
            direction: SplitDirection::Right,
            ..
        }
    ));
}

#[test]
fn parses_tmux_nested_mixed_layout() {
    let serialized = "56f7,120x40,0,0[120x19,0,0{59x19,0,0,0,60x19,60,0,1},120x20,0,20,2]";
    let layout = serialized.parse::<Layout>().unwrap();
    assert_eq!(layout.pane_indices(), vec![0, 1, 2]);

    let Layout::Split {
        direction,
        ratio,
        first,
        second,
    } = layout
    else {
        panic!("nested tmux layout needs a root split");
    };
    assert_eq!(direction, SplitDirection::Down);
    assert_close(share(&ratio), 19.0 / 39.0);
    assert!(matches!(
        *first,
        Layout::Split {
            direction: SplitDirection::Right,
            ..
        }
    ));
    assert_eq!(*second, Layout::Pane(2));
}

#[test]
fn rejects_bad_checksum_before_parsing_payload() {
    let error = parse_tmux_layout("0000,80x24,0,0,0").unwrap_err();
    assert_eq!(error.position(), 0);
    assert!(error.message().contains("checksum mismatch"));
    assert!(parse_tmux_layout("xyz,80x24,0,0,0").is_err());
}

#[test]
fn rejects_invalid_tmux_geometry_with_a_valid_checksum() {
    let wrong_parent = with_checksum("121x40,0,0{40x40,0,0,0,39x40,41,0,1,39x40,81,0,2}");
    assert!(parse_tmux_layout(&wrong_parent)
        .unwrap_err()
        .message()
        .contains("parent geometry"));

    let missing_divider = with_checksum("80x24,0,0{40x24,0,0,0,39x24,40,0,1}");
    assert!(parse_tmux_layout(&missing_divider)
        .unwrap_err()
        .message()
        .contains("divider column"));

    let wrong_cross_axis = with_checksum("80x24,0,0{40x24,0,0,0,39x23,41,0,1}");
    assert!(parse_tmux_layout(&wrong_cross_axis)
        .unwrap_err()
        .message()
        .contains("equal y offsets and heights"));
}

#[test]
fn rejects_malformed_tmux_structure_and_duplicate_panes() {
    for payload in [
        "80x24,0,0{80x24,0,0,0}",
        "80x24,0,0{}",
        "80x24,0,0{40x24,0,0,0,39x24,41,0,0}",
        "80x24,0,0{40x24,0,0,0,39x24,41,0,1,}",
        "80x24,0,0,0trailing",
        "0x24,0,0,0",
        "80x24,0,0,-1",
    ] {
        let serialized = with_checksum(payload);
        assert!(
            parse_tmux_layout(&serialized).is_err(),
            "unexpectedly accepted {payload}"
        );
    }
}

#[test]
fn a_single_pane_layout_parses_to_its_leaf() {
    let serialized = with_checksum("80x24,0,0,5");
    assert_eq!(parse_tmux_layout(&serialized).unwrap(), Layout::Pane(5));
    assert_eq!(Layout::parse_tmux(&serialized).unwrap(), Layout::Pane(5));
}

#[test]
fn rectangles_combine_only_when_adjacent_and_aligned() {
    let left = Rectangle { width: 40, height: 24, x: 0, y: 0 };
    let right = Rectangle { width: 39, height: 24, x: 41, y: 0 };
    assert_eq!(
        Rectangle::combine(left, right, SplitDirection::Right),
        Ok(Rectangle { width: 80, height: 24, x: 0, y: 0 })
    );
    let touching = Rectangle { width: 39, height: 24, x: 40, y: 0 };
    assert_eq!(
        Rectangle::combine(left, touching, SplitDirection::Right),
        Err(CombineError::NotAdjacent)
    );
    assert_eq!(
        Rectangle::combine(left, right, SplitDirection::Down),
        Err(CombineError::Misaligned)
    );
    assert_eq!(left.axis_length(SplitDirection::Right), 40);
    assert_eq!(left.axis_length(SplitDirection::Down), 24);
    assert_eq!(
        CombineError::NotAdjacent.message(SplitDirection::Down),
        "down-split children must be adjacent with one divider row"
    );
}

#[test]
fn integer_helpers_round_up() {
    assert_eq!(div_ceil(7, 3), 3);
    assert_eq!(div_ceil(6, 3), 2);
    assert_eq!(div_ceil(0, 3), 0);
    assert_eq!(ceil_sqrt(1), 1);
    assert_eq!(ceil_sqrt(7), 3);
    assert_eq!(ceil_sqrt(9), 3);
    assert_eq!(ceil_sqrt(10), 4);
}

#[test]
fn validation_reports_the_first_problem() {
    let bad_ratio = Layout::Split {
        direction: SplitDirection::Down,
        ratio: ratio(3, 3),
        first: Box::new(Layout::Pane(0)),
        second: Box::new(Layout::Pane(1)),
    };
    assert_eq!(
        bad_ratio.validate(),
        Err(LayoutError::InvalidRatio { ratio: ratio(3, 3) })
    );
    let duplicate = Layout::Split {
        direction: SplitDirection::Down,
        ratio: ratio(1, 2),
        first: Box::new(Layout::Pane(4)),
        second: Box::new(Layout::Pane(4)),
    };
    assert_eq!(duplicate.validate(), Err(LayoutError::DuplicatePane { index: 4 }));
    assert_eq!(Layout::pane(3).validate(), Ok(()));
    assert_eq!(SplitDirection::Right.as_str(), "right");
    assert_eq!(SplitDirection::Down.as_str(), "down");
}

fn decimal(value: &str) -> Ratio {
    let digits: String = value.chars().filter(|c| *c != '.').collect();
    let places = value.split('.').nth(1).map_or(0, str::len) as u32;
    Ratio {
        first: digits.parse().unwrap(),
        whole: 10u64.pow(places),
    }
}

#[test]
fn pane_chain_splits_the_previously_created_leaf() {
    let layout = PaneChainBuilder::new(0)
        .split_right(decimal("0.6"))
        .unwrap()
        .split_down(decimal("0.25"))
        .unwrap()
        .build();

    assert_eq!(layout.pane_indices(), vec![0, 1, 2]);
    let Layout::Split {
        direction,
        ratio,
        first,
        second,
    } = layout
    else {
        panic!("chain should have an outer split");
    };
    assert_eq!(direction, SplitDirection::Right);
    assert_close(share(&ratio), 0.6);
    assert_eq!(*first, Layout::Pane(0));

    let Layout::Split {
        direction,
        ratio,
        first,
        second,
    } = *second
    else {
        panic!("the second split should replace pane one");
    };
    assert_eq!(direction, SplitDirection::Down);
    assert_close(share(&ratio), 0.25);
    assert_eq!(*first, Layout::Pane(1));
    assert_eq!(*second, Layout::Pane(2));
}

#[test]
fn pane_chain_enforces_share_bounds_and_unique_indices() {
    assert!(PaneChainBuilder::new(0).split_right(decimal("0.1")).is_ok());
    assert!(PaneChainBuilder::new(0).split_right(decimal("0.9")).is_ok());
    assert!(matches!(
        PaneChainBuilder::new(0).split_right(decimal("0.099")),
        Err(LayoutError::InvalidPaneShare { .. })
    ));
    assert!(matches!(
        PaneChainBuilder::new(0).split_down(Ratio { first: 1, whole: 0 }),
        Err(LayoutError::InvalidPaneShare { .. })
    ));
    assert!(matches!(
        PaneChainBuilder::new(3).split_pane(3, SplitDirection::Right, decimal("0.5")),
        Err(LayoutError::DuplicatePane { index: 3 })
    ));
    assert!(matches!(
        PaneChainBuilder::new(usize::MAX).split_right(decimal("0.5")),
        Err(LayoutError::PaneIndexOverflow)
    ));
}

#[test]
fn one_shot_pane_chain_uses_sequential_indices() {
    let layout = Layout::pane_chain(4, SplitDirection::Right, decimal("0.5")).unwrap();
    assert_eq!(layout.pane_indices(), vec![0, 1, 2, 3]);
    assert_eq!(
        Layout::pane_chain(0, SplitDirection::Down, decimal("0.5")),
        Err(LayoutError::Empty)
    );
}

#[test]
fn a_chain_builder_reports_its_tail_and_explicit_indices() {
    let builder = PaneChainBuilder::new(5)
        .split_pane(9, SplitDirection::Down, decimal("0.5"))
        .unwrap();
    assert_eq!(builder.tail_pane(), 9);
    assert_eq!(builder.layout().pane_indices(), vec![5, 9]);
    let next = builder.split_right(decimal("0.5")).unwrap();
    assert_eq!(next.tail_pane(), 10);
    assert_eq!(next.build().pane_indices(), vec![5, 9, 10]);
    assert_eq!(validate_pane_share(decimal("0.95")), Err(LayoutError::InvalidPaneShare {
        ratio: decimal("0.95")
    }));
    assert_eq!(
        replace_pane(Layout::Pane(1), 2, Layout::Pane(3)),
        Err(LayoutError::PaneNotFound { index: 2 })
    );
    assert_eq!(
        LayoutError::PaneNotFound { index: 2 }.message(),
        "pane index 2 was not found in the layout"
    );
    assert_eq!(
        LayoutError::InvalidPaneShare { ratio: decimal("0.05") }.message(),
        "existing-pane share must be between 0.1 and 0.9, got 5/100"
    );
}
