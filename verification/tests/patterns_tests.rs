use bingo::game::GameType;
use bingo::patterns::get_game_patterns;

#[test]
fn british_catalog_lists_lines_then_doubles_then_fullhouse() {
    let rounds = get_game_patterns(&GameType::British);
    assert_eq!(rounds.len(), 3);
    assert_eq!(
        rounds[0],
        vec![
            vec![1, 2, 3, 4, 5, 6, 7, 8, 9],
            vec![10, 11, 12, 13, 14, 15, 16, 17, 18],
            vec![19, 20, 21, 22, 23, 24, 25, 26, 27],
        ]
    );
    assert_eq!(
        rounds[1],
        vec![
            vec![1, 2, 3, 4, 5, 6, 7, 8, 9, 10, 11, 12, 13, 14, 15, 16, 17, 18],
            vec![1, 2, 3, 4, 5, 6, 7, 8, 9, 19, 20, 21, 22, 23, 24, 25, 26, 27],
            vec![10, 11, 12, 13, 14, 15, 16, 17, 18, 19, 20, 21, 22, 23, 24, 25, 26, 27],
        ]
    );
    let fullhouse: Vec<u8> = (1..=27).collect();
    assert_eq!(rounds[2], vec![fullhouse]);
}

#[test]
fn classic_catalog_has_twelve_lines_then_plus_then_fullhouse() {
    let rounds = get_game_patterns(&GameType::Classic);
    assert_eq!(rounds.len(), 3);
    assert_eq!(rounds[0].len(), 12);
    assert_eq!(rounds[0][0], vec![1, 2, 3, 4, 5]);
    assert_eq!(rounds[0][5], vec![1, 6, 11, 16, 21]);
    assert_eq!(rounds[0][10], vec![1, 7, 13, 19, 25]);
    assert_eq!(rounds[0][11], vec![5, 9, 13, 17, 21]);
    assert_eq!(rounds[1], vec![vec![3, 8, 11, 12, 13, 14, 15, 18, 23]]);
    let fullhouse: Vec<u8> = (1..=25).collect();
    assert_eq!(rounds[2], vec![fullhouse]);
}

#[test]
fn picture_catalog_has_corners_then_blocks_then_fullhouse() {
    let rounds = get_game_patterns(&GameType::Picture);
    assert_eq!(rounds.len(), 3);
    assert_eq!(
        rounds[0],
        vec![vec![1, 2, 6, 7], vec![21, 22, 16, 17], vec![4, 5, 9, 10], vec![24, 25, 19, 20]]
    );
    assert_eq!(rounds[1].len(), 4);
    assert_eq!(rounds[1][0], vec![1, 2, 3, 6, 7, 8, 11, 12, 13]);
    let fullhouse: Vec<u8> = (1..=25).collect();
    assert_eq!(rounds[2], vec![fullhouse]);
}

#[test]
fn catalog_is_identical_on_every_lookup() {
    assert_eq!(get_game_patterns(&GameType::British), get_game_patterns(&GameType::British));
}
