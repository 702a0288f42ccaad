use solkit::engine::Pos;
use solkit::gstate::GameState;

#[test]
fn a_mark_is_set_and_taken_off() {
    let mut st = GameState::new();
    assert!(st.marked().is_empty());
    assert!(st.hints().is_empty());
    let p = Pos { col: 3, row: 1 };
    st.mark(p);
    assert_eq!(st.marked(), p);
    st.mark(Pos { col: 3, row: 0 });
    assert_eq!(st.marked(), Pos { col: 3, row: 0 });
    st.mark(Pos { col: 3, row: 0 });
    assert_eq!(st.marked(), Pos::new());
    st.mark(p);
    st.clear_mark();
    assert_eq!(st.marked(), Pos::new());
    st.mark(Pos::new());
    assert_eq!(st.marked(), Pos::new());
}

#[test]
fn hints_replace_one_another() {
    let mut st = GameState::new();
    let first = [Pos { col: 1, row: 0 }, Pos { col: 4, row: 2 }, Pos { col: 1, row: 0 }];
    st.mark(Pos { col: 9, row: 9 });
    st.hint(&first);
    assert_eq!(st.hints(), &first[..]);
    let second = vec![Pos { col: 7, row: 7 }];
    st.hint(&second);
    assert_eq!(st.hints(), &second[..]);
    assert_eq!(st.marked(), Pos { col: 9, row: 9 });
    st.hint(&[]);
    assert!(st.hints().is_empty());
    st.hint(&first);
    st.clear_hints();
    assert!(st.hints().is_empty());
    assert_eq!(st.marked(), Pos { col: 9, row: 9 });
}
