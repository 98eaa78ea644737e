use debug_tui::channel::Channel;
use debug_tui::channel::Channels;

#[test]
fn test_channel_lines() {
    let mut channel = Channel::new("test".to_string());
    channel.write("foobar");
    channel.write("\nbarfoo\nbaz\none\ntwo");
    channel.write("baf\nbaz\n");

    assert_eq!(0, channel.lines.len());
    channel.savepoint(0);
    channel.unload(0);

    assert_eq!(6, channel.lines.len());
}

#[test]
fn test_savepoint() {
    let mut channel = Channel::new("test".to_string());
    channel.write("foobar\nbar");
    channel.savepoint(0);
    channel.write("\nbarfoo\nbaz\none\ntwo");
    channel.savepoint(1);
    channel.write("baf\nbaz\n");

    assert_eq!(0, channel.lines.len());
    channel.savepoint(1);
    channel.unload(1);
    assert_eq!(7, channel.lines.len());
    channel.unload(0);
    assert_eq!(2, channel.lines.len());
}

#[test]
fn test_channel_lines_with_unterminated_previous() {
    let mut channel = Channel::default();
    channel.write("foobar");
    channel.savepoint(0);
    channel.unload(0);
    assert_eq!(1, channel.lines.len());
    channel.write("barfoo");
    channel.savepoint(0);
    channel.unload(0);
    assert_eq!(1, channel.lines.len());
    channel.write("barfoo\n");
    channel.savepoint(0);
    channel.unload(0);
    assert_eq!(1, channel.lines.len());
}

#[test]
fn test_channel_lines_with_nothing() {
    let mut channel = Channel::default();
    channel.unload(100);

    assert_eq!(0, channel.lines.len());
    channel.write("");
    channel.unload(100);
    assert_eq!(0, channel.lines.len());
}

#[test]
fn test_viewport() {
    let mut channel = Channel::default();
    channel.lines.push("one".to_string());
    channel.lines.push("two".to_string());
    channel.lines.push("three".to_string());
    channel.lines.push("four".to_string());
    channel.lines.push("five".to_string());

    assert_eq!(vec!["one", "two"], channel.viewport(2, 0));
    assert_eq!(vec!["two", "three"], channel.viewport(2, 1));
    assert_eq!(vec!["five"], channel.viewport(2, 4));
    assert_eq!(Vec::<String>::new(), channel.viewport(2, 5));
    assert_eq!(Vec::<String>::new(), channel.viewport(2, 6));
}

#[test]
fn viewport_does_not_overflow_on_large_scroll() {
    let mut channel = Channel::default();
    channel.lines.push("one".to_string());
    assert_eq!(Vec::<String>::new(), channel.viewport(u16::MAX, u16::MAX));
    assert_eq!(vec!["one"], channel.viewport(u16::MAX, 0));
}

#[test]
fn unload_is_prefix_of_what_was_written_before_savepoint() {
    let mut channel = Channel::new("log".to_string());
    channel.write("alpha\nbeta\ngam");
    channel.savepoint(7);
    channel.write("ma\ndelta\n");
    channel.unload(7);
    assert_eq!(vec!["alpha", "beta", "gam"], channel.lines);
    let joined = channel.lines.join("\n");
    assert!("alpha\nbeta\ngam".starts_with(&joined));
}

#[test]
fn lines_drop_carriage_returns() {
    let mut channel = Channel::default();
    channel.write("one\r\ntwo\r\n");
    channel.savepoint(1);
    channel.unload(1);
    assert_eq!(vec!["one", "two"], channel.lines);
}

#[test]
fn process_output_routes_to_stdout_channel() {
    let mut channels = Channels::new();
    channels.write("stdout", "hello\n");
    channels.savepoint(3);
    channels.unload(3);
    let channel = channels.get("stdout").unwrap();
    assert_eq!(Some(&"hello".to_string()), channel.lines.last());
    assert_eq!(1, channels.count());
    assert_eq!(vec!["stdout".to_string()], channels.names());
}

#[test]
fn channels_keep_first_write_order() {
    let mut channels = Channels::new();
    channels.write("stderr", "a");
    channels.write("stdout", "b");
    channels.write("stderr", "c");
    assert_eq!(2, channels.count());
    assert_eq!(Some(0), channels.offset_by_name("stderr"));
    assert_eq!(Some(1), channels.offset_by_name("stdout"));
    assert_eq!(None, channels.offset_by_name("eval"));
    assert_eq!("stdout", channels.channel_by_offset(1).unwrap().name);
    assert!(channels.channel_by_offset(2).is_none());
    channels.reset();
    assert_eq!(0, channels.count());
}

#[test]
fn missing_savepoint_unloads_nothing() {
    let mut channel = Channel::default();
    channel.writeln("x");
    channel.savepoint(1);
    channel.unload(1);
    assert_eq!(vec!["x"], channel.lines);
    channel.unload(2);
    assert!(channel.lines.is_empty());
}
