use tuitty::dispatch::{Action, Cmd, Dispatch, EventHandle, Output, State};
use tuitty::enums::{Clear, StoreEvent};

fn texts(outs: &[Output]) -> Vec<String> {
    outs.iter()
        .map(|o| match o {
            Output::Print(s) => format!("print {}", s),
            Output::PrintFlush(s) => format!("printf {}", s),
            Output::Flush => String::from("flush"),
            Output::Raw => String::from("raw"),
            Output::Cook => String::from("cook"),
            Output::QuerySize => String::from("size?"),
            Output::Reply(id, e) => format!("reply {} {:?}", id, e),
        })
        .collect()
}

#[test]
fn handles_build_their_commands() {
    let h = EventHandle { id: 7 };
    assert!(matches!(h.suspend(), Cmd::Suspend(7)));
    assert!(matches!(h.transmit(), Cmd::Transmit(7)));
    assert!(matches!(h.stop(), Cmd::Stop(7)));
    assert!(matches!(h.lock(), Cmd::Lock(7)));
    assert!(matches!(h.unlock(), Cmd::Unlock));
    assert!(matches!(h.coord(), Cmd::Request(State::Coord(7))));
    assert!(matches!(h.size(), Cmd::Request(State::Size(7))));
    assert!(matches!(h.syspos(), Cmd::Request(State::SysPos(7))));
    assert!(matches!(h.getch(), Cmd::Request(State::GetCh(7))));
    assert!(matches!(h.signal(Action::Flush), Cmd::Signal(Action::Flush)));
}

#[test]
fn signals_write_and_track() {
    let mut d = Dispatch::new(10, 4, 0, 0, 4);
    let outs = d.handle(Cmd::Signal(Action::Goto(3, 2)));
    assert_eq!(texts(&outs), vec!["print \x1B[3;4H"]);
    assert!(d.register(5));
    let outs = d.handle(Cmd::Request(State::Coord(5)));
    assert_eq!(texts(&outs), vec!["reply 5 Coord(3, 2)"]);
    let outs = d.handle(Cmd::Signal(Action::Printf(String::from("ab"))));
    assert_eq!(texts(&outs), vec!["printf ab"]);
    let outs = d.handle(Cmd::Signal(Action::Left(1)));
    assert_eq!(texts(&outs), vec!["print \x1B[1D"]);
    let outs = d.handle(Cmd::Request(State::GetCh(5)));
    assert!(matches!(&outs[0], Output::Reply(5, StoreEvent::GetCh(s)) if s == "b"));
    let outs = d.handle(Cmd::Request(State::Size(9)));
    assert!(outs.is_empty());
    let outs = d.handle(Cmd::Signal(Action::Clear(Clear::All)));
    assert_eq!(texts(&outs), vec!["print \x1B[2J"]);
    let outs = d.handle(Cmd::Signal(Action::Raw));
    assert_eq!(texts(&outs), vec!["raw"]);
    assert!(d.store.is_raw());
}

#[test]
fn the_lock_routes_input() {
    let mut d = Dispatch::new(10, 4, 0, 0, 4);
    assert!(d.register(1));
    assert!(d.register(2));
    assert!(!d.register(2));
    assert!(!d.register(0));
    assert_eq!(d.route(), vec![1, 2]);
    d.handle(Cmd::Suspend(1));
    assert_eq!(d.route(), vec![2]);
    d.handle(Cmd::Transmit(1));
    d.handle(Cmd::Lock(2));
    d.handle(Cmd::Lock(1));
    assert_eq!(d.lock_owner, 2);
    assert_eq!(d.route(), vec![2]);
    let outs = d.handle(Cmd::Request(State::SysPos(1)));
    assert!(outs.is_empty());
    d.handle(Cmd::Stop(2));
    assert_eq!(d.route(), Vec::<usize>::new());
    assert_eq!(d.lock_owner, 0);
    assert_eq!(d.route(), vec![1]);
    let outs = d.handle(Cmd::Request(State::SysPos(1)));
    assert_eq!(texts(&outs), vec!["printf \x1B[6n"]);
}

#[test]
fn switching_screens() {
    let mut d = Dispatch::new(4, 2, 0, 0, 4);
    d.handle(Cmd::Signal(Action::Prints(String::from("ab"))));
    let outs = d.handle(Cmd::Signal(Action::Switch));
    assert_eq!(
        texts(&outs),
        vec![
            "printf \x1B[?1049h",
            "cook",
            "print \x1B[?1006l\x1B[?1015l\x1B[?1002l\x1B[?1000l",
            "print \x1B[?25h",
            "print \x1B[0m",
            "print \x1B[1;1H",
            "flush",
        ]
    );
    assert_eq!(d.store.id(), 1);
    let outs = d.handle(Cmd::Signal(Action::SwitchTo(1)));
    assert!(outs.is_empty());
    let outs = d.handle(Cmd::Signal(Action::SwitchTo(0)));
    assert_eq!(
        texts(&outs),
        vec![
            "printf \x1B[?1049l",
            "cook",
            "print \x1B[?1006l\x1B[?1015l\x1B[?1002l\x1B[?1000l",
            "print \x1B[?25h",
            "flush",
        ]
    );
    let outs = d.handle(Cmd::Signal(Action::SwitchTo(1)));
    let blank = format!("print {}", " ".repeat(8));
    assert_eq!(
        texts(&outs),
        vec![
            "printf \x1B[?1049h",
            "print \x1B[2J",
            "print \x1B[1;1H",
            blank.as_str(),
            "print \x1B[1;1H",
            "flush",
            "cook",
            "print \x1B[?1006l\x1B[?1015l\x1B[?1002l\x1B[?1000l",
            "print \x1B[?25h",
            "flush",
        ]
    );
}

#[test]
fn sizes_and_closing() {
    let mut d = Dispatch::new(4, 2, 0, 0, 4);
    let outs = d.handle(Cmd::Signal(Action::Resize));
    assert_eq!(texts(&outs), vec!["size?"]);
    d.resized(6, 3);
    assert_eq!(d.store.size(), (6, 3));
    let outs = d.handle(Cmd::Signal(Action::SyncSize(8, 2)));
    assert_eq!(texts(&outs), vec!["printf \x1B[8;2;8t"]);
    assert_eq!(d.store.size(), (8, 2));
    assert_eq!(
        texts(&d.closing()),
        vec![
            "printf \x1B[?1049l",
            "print \x1B[?25h",
            "cook",
            "print \x1B[?1006l\x1B[?1015l\x1B[?1002l\x1B[?1000l",
        ]
    );
}

#[test]
fn suspend_then_transmit_restores_the_handles() {
    let mut d = Dispatch::new(10, 4, 0, 0, 4);
    assert!(d.register(3));
    assert!(d.register(4));
    assert!(d.handle(Cmd::Suspend(3)).is_empty());
    assert_eq!(d.route(), vec![4]);
    assert!(d.handle(Cmd::Transmit(3)).is_empty());
    assert_eq!(d.route(), vec![3, 4]);
    assert!(d.emitters.iter().all(|e| !e.is_suspend && e.is_running));
}

#[test]
fn commands_that_cannot_be_carried_out_are_told_apart() {
    let mut d = Dispatch::new(10, 4, 0, 0, 4);
    assert!(d.register(2));
    assert!(!tuitty::dispatch::cmd_fits(&Cmd::Signal(Action::Up(i16::MIN))));
    assert!(!tuitty::dispatch::cmd_fits(&Cmd::Signal(Action::Goto(i16::MAX, 0))));
    assert!(tuitty::dispatch::cmd_fits(&Cmd::Signal(Action::Goto(-3, 2))));
    assert!(!d.can_handle(&Cmd::Signal(Action::Left(i16::MIN))));
    let outs = d.handle(Cmd::Signal(Action::Printf(String::from("中"))));
    assert_eq!(texts(&outs), vec!["printf 中"]);
    let outs = d.handle(Cmd::Signal(Action::Goto(1, 0)));
    assert_eq!(texts(&outs), vec!["print \x1B[1;2H"]);
    assert!(d.store.can_getch());
    assert!(d.can_handle(&Cmd::Request(State::GetCh(2))));
    let outs = d.handle(Cmd::Request(State::GetCh(2)));
    assert!(matches!(&outs[0], Output::Reply(2, StoreEvent::GetCh(s)) if s == "中"));
}

#[test]
fn a_new_dispatcher_starts_where_the_terminal_cursor_is() {
    let mut d = Dispatch::new(10, 4, 3, 2, 4);
    assert!(d.register(1));
    let outs = d.handle(Cmd::Request(State::Coord(1)));
    assert_eq!(texts(&outs), vec!["reply 1 Coord(3, 2)"]);
    let d2 = Dispatch::new(10, 4, 3, 20000, 4);
    assert_eq!(d2.store.coord(), (0, 0));
}

#[test]
fn a_screen_fits_while_its_cells_fit_an_i16() {
    assert!(tuitty::dispatch::size_fits(181, 181));
    assert!(tuitty::dispatch::size_fits(32767, 1));
    assert!(!tuitty::dispatch::size_fits(182, 181));
    assert!(!tuitty::dispatch::size_fits(0, 10));
}
