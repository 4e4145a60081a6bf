use vstd::prelude::*;
use crate::game::GameType;

verus! {

/// A winning pattern is a set of card positions; a round offers one or more
/// acceptable patterns; a catalog entry is the ordered list of rounds for one
/// game variant.
pub type GamePatterns = Vec<Vec<Vec<u8>>>;

/// The catalog entry for a variant, as pure data: one inner sequence per
/// round, each holding that round's acceptable winning patterns.
pub open spec fn spec_game_patterns(game_type: GameType) -> Seq<Seq<Seq<u8>>> {
    match game_type {
        GameType::Classic => seq![
            seq![
                seq![1u8, 2, 3, 4, 5],
                seq![6u8, 7, 8, 9, 10],
                seq![11u8, 12, 13, 14, 15],
                seq![16u8, 17, 18, 19, 20],
                seq![21u8, 22, 23, 24, 25],
                seq![1u8, 6, 11, 16, 21],
                seq![2u8, 7, 12, 17, 22],
                seq![3u8, 8, 13, 18, 23],
                seq![4u8, 9, 14, 19, 24],
                seq![5u8, 10, 15, 20, 25],
                seq![1u8, 7, 13, 19, 25],
                seq![5u8, 9, 13, 17, 21],
            ],
            seq![seq![3u8, 8, 11, 12, 13, 14, 15, 18, 23]],
            seq![
                seq![
                    1u8, 2, 3, 4, 5, 6, 7, 8, 9, 10, 11, 12, 13, 14, 15, 16, 17, 18, 19, 20,
                    21, 22, 23, 24, 25,
                ],
            ],
        ],
        GameType::British => seq![
            seq![
                seq![1u8, 2, 3, 4, 5, 6, 7, 8, 9],
                seq![10u8, 11, 12, 13, 14, 15, 16, 17, 18],
                seq![19u8, 20, 21, 22, 23, 24, 25, 26, 27],
            ],
            seq![
                seq![1u8, 2, 3, 4, 5, 6, 7, 8, 9, 10, 11, 12, 13, 14, 15, 16, 17, 18],
                seq![1u8, 2, 3, 4, 5, 6, 7, 8, 9, 19, 20, 21, 22, 23, 24, 25, 26, 27],
                seq![10u8, 11, 12, 13, 14, 15, 16, 17, 18, 19, 20, 21, 22, 23, 24, 25, 26, 27],
            ],
            seq![
                seq![
                    1u8, 2, 3, 4, 5, 6, 7, 8, 9, 10, 11, 12, 13, 14, 15, 16, 17, 18, 19, 20,
                    21, 22, 23, 24, 25, 26, 27,
                ],
            ],
        ],
        GameType::Picture => seq![
            seq![
                seq![1u8, 2, 6, 7],
                seq![21u8, 22, 16, 17],
                seq![4u8, 5, 9, 10],
                seq![24u8, 25, 19, 20],
            ],
            seq![
                seq![1u8, 2, 3, 6, 7, 8, 11, 12, 13],
                seq![21u8, 22, 23, 16, 17, 18, 11, 12, 13],
                seq![3u8, 4, 5, 8, 9, 10, 13, 14, 15],
                seq![23u8, 24, 25, 18, 19, 20, 13, 14, 15],
            ],
            seq![
                seq![
                    1u8, 2, 3, 4, 5, 6, 7, 8, 9, 10, 11, 12, 13, 14, 15, 16, 17, 18, 19, 20,
                    21, 22, 23, 24, 25,
                ],
            ],
        ],
    }
}

/// Every variant's catalog has exactly three rounds, and no round is without
/// an acceptable pattern.
pub proof fn lemma_catalog_shape(game_type: GameType)
    ensures
        spec_game_patterns(game_type).len() == 3,
        forall|r: int|
            0 <= r < spec_game_patterns(game_type).len()
                ==> #[trigger] spec_game_patterns(game_type)[r].len() > 0,
{
}

/// The catalog entry for a variant: reference data, computed from nothing and
/// identical on every call.
pub fn get_game_patterns(game_type: &GameType) -> (r: GamePatterns)
    ensures
        r.deep_view() == spec_game_patterns(*game_type),
        r@.len() == 3,
{
    let r: GamePatterns = match game_type {
        GameType::Classic => vec![
            vec![
                vec![1u8, 2, 3, 4, 5],
                vec![6u8, 7, 8, 9, 10],
                vec![11u8, 12, 13, 14, 15],
                vec![16u8, 17, 18, 19, 20],
                vec![21u8, 22, 23, 24, 25],
                vec![1u8, 6, 11, 16, 21],
                vec![2u8, 7, 12, 17, 22],
                vec![3u8, 8, 13, 18, 23],
                vec![4u8, 9, 14, 19, 24],
                vec![5u8, 10, 15, 20, 25],
                vec![1u8, 7, 13, 19, 25],
                vec![5u8, 9, 13, 17, 21],
            ],
            vec![vec![3u8, 8, 11, 12, 13, 14, 15, 18, 23]],
            vec![
                vec![
                    1u8, 2, 3, 4, 5, 6, 7, 8, 9, 10, 11, 12, 13, 14, 15, 16, 17, 18, 19, 20,
                    21, 22, 23, 24, 25,
                ],
            ],
        ],
        GameType::British => vec![
            vec![
                vec![1u8, 2, 3, 4, 5, 6, 7, 8, 9],
                vec![10u8, 11, 12, 13, 14, 15, 16, 17, 18],
                vec![19u8, 20, 21, 22, 23, 24, 25, 26, 27],
            ],
            vec![
                vec![1u8, 2, 3, 4, 5, 6, 7, 8, 9, 10, 11, 12, 13, 14, 15, 16, 17, 18],
                vec![1u8, 2, 3, 4, 5, 6, 7, 8, 9, 19, 20, 21, 22, 23, 24, 25, 26, 27],
                vec![10u8, 11, 12, 13, 14, 15, 16, 17, 18, 19, 20, 21, 22, 23, 24, 25, 26, 27],
            ],
            vec![
                vec![
                    1u8, 2, 3, 4, 5, 6, 7, 8, 9, 10, 11, 12, 13, 14, 15, 16, 17, 18, 19, 20,
                    21, 22, 23, 24, 25, 26, 27,
                ],
            ],
        ],
        GameType::Picture => vec![
            vec![
                vec![1u8, 2, 6, 7],
                vec![21u8, 22, 16, 17],
                vec![4u8, 5, 9, 10],
                vec![24u8, 25, 19, 20],
            ],
            vec![
                vec![1u8, 2, 3, 6, 7, 8, 11, 12, 13],
                vec![21u8, 22, 23, 16, 17, 18, 11, 12, 13],
                vec![3u8, 4, 5, 8, 9, 10, 13, 14, 15],
                vec![23u8, 24, 25, 18, 19, 20, 13, 14, 15],
            ],
            vec![
                vec![
                    1u8, 2, 3, 4, 5, 6, 7, 8, 9, 10, 11, 12, 13, 14, 15, 16, 17, 18, 19, 20,
                    21, 22, 23, 24, 25,
                ],
            ],
        ],
    };
    proof {
        assert(r.deep_view() =~~= spec_game_patterns(*game_type));
    }
    r
}

} // verus!
