//! The daemon's answers, the command line and the files of a process.

use rezygisk::cli::{parse_args, parse_pid, Command};
use rezygisk::daemon::{
    connect_attempted, daemon_info, free_modules, free_rezygisk_info, module_display_name,
    rezygiskd_connect, rezygiskd_connect_companion, rezygiskd_get_info, rezygiskd_read_modules,
    rezygiskd_remove_module, rezygiskd_update_mns, root_impl_of, ConnectResult, ConnectStep,
    InfoReply, ModuleName, ModulesReply, NamespaceReply, NamespaceWord, ReZygiskInfo, RootImpl,
    ZygiskModules,
};
use rezygisk::monitor::RezygiskdCommand;
use rezygisk::procfs::{get_cmdline, get_ppid};

fn strings(words: &[&str]) -> Vec<String> {
    words.iter().map(|w| w.to_string()).collect()
}

#[test]
fn connects_as_often_as_asked() {
    for retry in 0..6u8 {
        let mut step = rezygiskd_connect(retry);
        let mut attempts = 0;
        let mut waits = 0;
        loop {
            match step {
                ConnectStep::Attempt(left) => {
                    attempts += 1;
                    step = connect_attempted(left, ConnectResult::Refused);
                }
                ConnectStep::WaitAndAttempt(left) => {
                    waits += 1;
                    attempts += 1;
                    step = connect_attempted(left, ConnectResult::Refused);
                }
                ConnectStep::Connected => panic!("nobody answered"),
                ConnectStep::Failed => break,
            }
        }
        assert_eq!(attempts, retry as u32);
        assert_eq!(waits, (retry as u32).saturating_sub(1));
    }
    assert_eq!(connect_attempted(3, ConnectResult::NoSocket), ConnectStep::Failed);
    assert_eq!(connect_attempted(3, ConnectResult::Connected), ConnectStep::Connected);
}

#[test]
fn root_implementations() {
    assert_eq!(root_impl_of(1 << 28 | 1 << 30), RootImpl::Apatch);
    assert_eq!(root_impl_of(1 << 29), RootImpl::KernelSU);
    assert_eq!(root_impl_of(1 << 30), RootImpl::Magisk);
    assert_eq!(root_impl_of(0), RootImpl::NoRoot);
    assert_eq!(RootImpl::Apatch.name(), "APatch");
    assert_eq!(RootImpl::NoRoot.name(), "none");
}

#[test]
fn display_names() {
    let name = |text: &str, cap: usize| match module_display_name(&text.as_bytes().to_vec(), cap) {
        ModuleName::Name(n) => String::from_utf8(n).unwrap(),
        ModuleName::Invalid => "invalid".to_string(),
        ModuleName::Missing => "missing".to_string(),
    };
    assert_eq!(name("id=a\nname=Truman\nname=b\n", 1023), "Truman");
    assert_eq!(name("id=a\nname=Truman", 1023), "invalid");
    assert_eq!(name("id=a\n", 1023), "missing");
    assert_eq!(name("name=\n", 1023), "");
    assert_eq!(name("", 1023), "missing");
    // A line that is too long is cut and has no end.
    assert_eq!(name("name=0123456789\n", 8), "invalid");
    assert_eq!(name("xname=a\n", 1), "missing");
}

fn empty_info() -> ReZygiskInfo {
    ReZygiskInfo {
        modules: ZygiskModules { modules: vec![], fds: vec![3] },
        root_impl: RootImpl::NoRoot,
        pid: 0,
        running: true,
    }
}

#[test]
fn info_reply() {
    let mut info = empty_info();
    rezygiskd_get_info(
        &mut info,
        InfoReply {
            connected: true,
            flags: Some(1 << 29),
            pid: Some(0xffff_ffff),
            count: Some((2, true)),
            names: vec![Some("a".to_string()), Some("b".to_string())],
        },
    );
    assert!(info.running);
    assert_eq!(info.root_impl, RootImpl::KernelSU);
    assert_eq!(info.pid, -1);
    assert_eq!(info.modules.modules, strings(&["a", "b"]));
    assert!(info.modules.fds.is_empty());
    free_rezygisk_info(&mut info);
    assert!(info.modules.modules.is_empty());

    let mut info = empty_info();
    rezygiskd_get_info(
        &mut info,
        InfoReply {
            connected: true,
            flags: Some(0),
            pid: Some(7),
            count: Some((2, true)),
            names: vec![Some("a".to_string()), None],
        },
    );
    assert_eq!(info.pid, 7);
    assert!(info.modules.modules.is_empty());

    let mut info = empty_info();
    rezygiskd_get_info(
        &mut info,
        InfoReply { connected: false, flags: None, pid: None, count: None, names: vec![] },
    );
    assert!(!info.running);
    assert_eq!(info.modules.fds, vec![3]);
}

#[test]
fn info_is_whole_or_nothing() {
    let reply = |pid: Option<u32>, count: usize, names: Vec<Option<&str>>| InfoReply {
        connected: true,
        flags: Some(1 << 30),
        pid,
        count: Some((count, true)),
        names: names.into_iter().map(|n| n.map(|n| n.to_string())).collect(),
    };
    assert_eq!(
        daemon_info(reply(Some(0xffff_ffff), 2, vec![Some("a"), Some("b")])),
        Some((RootImpl::Magisk, -1, strings(&["a", "b"])))
    );
    assert_eq!(daemon_info(reply(Some(7), 0, vec![])), Some((RootImpl::Magisk, 7, vec![])));
    assert_eq!(daemon_info(reply(Some(7), 2, vec![Some("a"), None])), None);
    assert_eq!(daemon_info(reply(Some(7), 2, vec![Some("a")])), None);
    assert_eq!(daemon_info(reply(None, 0, vec![])), None);
    assert_eq!(daemon_info(InfoReply { connected: false, ..reply(Some(7), 0, vec![]) }), None);
    assert_eq!(daemon_info(InfoReply { flags: None, ..reply(Some(7), 0, vec![]) }), None);
    assert_eq!(daemon_info(InfoReply { count: None, ..reply(Some(7), 0, vec![]) }), None);
}

#[test]
fn module_files() {
    let mut m = ZygiskModules { modules: vec![], fds: vec![] };
    let reply = |files: Vec<(bool, i32)>| ModulesReply {
        connected: true,
        count: Some((2, true)),
        files,
    };
    let (ok, closing) = rezygiskd_read_modules(&mut m, reply(vec![(true, 10), (true, 11)]));
    assert!(ok && closing.is_empty());
    assert_eq!(m.modules, strings(&["/proc/self/fd/10", "/proc/self/fd/11"]));
    assert_eq!(m.fds, vec![10, 11]);
    m.fds[0] = -1;
    assert_eq!(free_modules(&mut m), vec![11]);
    assert!(m.modules.is_empty() && m.fds.is_empty());

    let (ok, closing) = rezygiskd_read_modules(&mut m, reply(vec![(true, 10), (true, -1)]));
    assert!(!ok);
    assert_eq!(closing, vec![10]);
    assert!(m.modules.is_empty());
    let (ok, _) = rezygiskd_read_modules(
        &mut m,
        ModulesReply { connected: true, count: Some((2, false)), files: vec![] },
    );
    assert!(!ok);
}

#[test]
fn companions_and_removal() {
    assert_eq!(rezygiskd_connect_companion(9, Some(1)), (9, false));
    assert_eq!(rezygiskd_connect_companion(9, Some(0)), (-1, true));
    assert_eq!(rezygiskd_connect_companion(9, None), (-1, true));
    assert!(rezygiskd_remove_module(Some(1)));
    assert!(!rezygiskd_remove_module(Some(2)));
    assert!(!rezygiskd_remove_module(None));
}

#[test]
fn namespace_reply() {
    let word = |value: u32, file: Option<i32>| Some(NamespaceWord { value, file });
    let mut buf = vec![7u8; 32];
    let mut fd = 5;
    let (ok, closing) = rezygiskd_update_mns(
        NamespaceReply { pid: word(123, None), fd: word(45, Some(8)) },
        &mut buf,
        32,
        &mut fd,
    );
    assert!(ok && closing.is_empty());
    assert_eq!(fd, 8);
    assert_eq!(&buf[..14], b"/proc/123/fd/4");
    assert_eq!(buf[15], 0);
    assert_eq!(buf[16], 7);

    // Too little room cuts the path; a second file is not kept.
    let mut small = vec![7u8; 6];
    let (ok, closing) = rezygiskd_update_mns(
        NamespaceReply { pid: word(1, Some(8)), fd: word(2, Some(9)) },
        &mut small,
        6,
        &mut fd,
    );
    assert!(ok);
    assert_eq!(closing, vec![9]);
    assert_eq!(&small, b"/proc\0");

    // No file number: nothing is kept.
    let (ok, closing) = rezygiskd_update_mns(
        NamespaceReply { pid: word(1, Some(8)), fd: word(0, None) },
        &mut small,
        6,
        &mut fd,
    );
    assert!(!ok);
    assert_eq!(closing, vec![8]);
    assert_eq!(fd, -1);
    let (ok, _) =
        rezygiskd_update_mns(NamespaceReply { pid: None, fd: None }, &mut small, 6, &mut fd);
    assert!(!ok);
}

#[test]
fn process_numbers() {
    assert_eq!(parse_pid("1234"), Some(1234));
    assert_eq!(parse_pid("  -7 "), Some(-7));
    assert_eq!(parse_pid("+7"), Some(7));
    assert_eq!(parse_pid("0x1F"), Some(31));
    assert_eq!(parse_pid("0X10"), Some(16));
    assert_eq!(parse_pid("017"), Some(15));
    assert_eq!(parse_pid("0"), Some(0));
    assert_eq!(parse_pid("08"), None);
    assert_eq!(parse_pid("12a"), None);
    assert_eq!(parse_pid(""), None);
    assert_eq!(parse_pid("0x"), None);
    assert_eq!(parse_pid("2147483647"), Some(2147483647));
    assert_eq!(parse_pid("2147483648"), None);
    assert_eq!(parse_pid("-2147483648"), Some(-2147483648));
    assert_eq!(parse_pid("-2147483649"), None);
    assert_eq!(parse_pid("--5"), None);
    assert_eq!(parse_pid("+-5"), None);
    assert_eq!(parse_pid("-+5"), None);
    assert_eq!(parse_pid("0x-10"), None);
    assert_eq!(parse_pid("0+7"), None);
    assert_eq!(parse_pid("-"), None);
}

#[test]
fn commands() {
    let run = |words: &[&str]| parse_args(&strings(words));
    assert_eq!(run(&["p"]), Command::Usage);
    assert_eq!(run(&["p", "monitor"]), Command::Monitor);
    assert_eq!(run(&["p", "trace"]), Command::Usage);
    assert_eq!(
        run(&["p", "trace", "42", "--tango", "--restart"]),
        Command::Trace { pid: Some(42), tango: true, restart: true }
    );
    assert_eq!(
        run(&["p", "trace", "x"]),
        Command::Trace { pid: None, tango: false, restart: false }
    );
    assert_eq!(run(&["p", "ctl", "stop"]), Command::Ctl(Some(RezygiskdCommand::Stop)));
    assert_eq!(run(&["p", "ctl", "start"]), Command::Ctl(Some(RezygiskdCommand::Start)));
    assert_eq!(run(&["p", "ctl", "exit"]), Command::Ctl(Some(RezygiskdCommand::Exit)));
    assert_eq!(run(&["p", "ctl"]), Command::Ctl(None));
    assert_eq!(run(&["p", "version"]), Command::Version);
    assert_eq!(run(&["p", "invalidate-ns"]), Command::InvalidateNs);
    assert_eq!(run(&["p", "info"]), Command::Info);
    assert_eq!(run(&["p", "what"]), Command::Usage);
}

#[test]
fn process_files() {
    assert_eq!(get_cmdline(&b"zygote64\0\0-X\0--zygote\0".to_vec()), b"zygote64 -X --zygote");
    assert_eq!(get_cmdline(&b"\0\0".to_vec()), b"");
    assert_eq!(get_ppid("12 (a b) c) S 1 12 12"), Some(1));
    assert_eq!(get_ppid("12 (x) S"), None);
    assert_eq!(get_ppid("12 x S 1"), None);
    assert_eq!(get_ppid("12 (x) S one"), None);
}

#[test]
fn answered_path_ends_with_a_zero() {
    for len in 1..40usize {
        let mut buf = vec![0xffu8; len];
        let mut fd = -1;
        let reply = NamespaceReply {
            pid: Some(NamespaceWord { value: 4_000_000_000, file: None }),
            fd: Some(NamespaceWord { value: 7, file: None }),
        };
        let (ok, _) = rezygiskd_update_mns(reply, &mut buf, len, &mut fd);
        assert!(ok);
        assert!(buf.contains(&0));
    }
}
