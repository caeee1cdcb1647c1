//! The per-episode arena.

use kremory::arena::Bump;

#[test]
fn an_arena_is_reset_between_episodes() {
    let mut bump = Bump::new();
    assert_eq!(bump.alloc_str("per-episode string"), "per-episode string");
    bump.reset();
    assert_eq!(bump.alloc_str("next episode"), "next episode");
}
