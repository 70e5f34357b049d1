use pvm::cfg::{AdvancedConfig, CfgMode, Config};
use pvm::data::{version, File, FileInit, HasID};
use pvm::errors::{ret, EngineError, PVMErr, ViewError};
use pvm::ingest::frame_line;
use pvm::iostream::{fd_class, io_type_for, FdClass, IOType, SockFamily, SockKind};
use pvm::views::{
    neq, param_flag_name, view_flag_name, DBGView, ProcTreeView, ViewKind, ViewParams, ViewParamsExt,
    ViewRegistry,
};

#[test]
fn config_builders() {
    let c = Config::default();
    assert_eq!(c.cfg_mode, CfgMode::Auto);
    let c = Config::build().plugin_dir("/p").finish();
    assert_eq!(c.plugin_dir.as_deref(), Some("/p"));
    assert!(c.cfg_detail.is_none());
    let c = Config::build().advanced().consumer_threads(3).persistence_threads(2).finish();
    assert_eq!(c.cfg_mode, CfgMode::Advanced);
    assert_eq!(c.cfg_detail, Some(AdvancedConfig { consumer_threads: 3, persistence_threads: 2 }));
    let d = AdvancedConfig::default();
    assert_eq!((d.consumer_threads, d.persistence_threads), (8, 1));
}

#[test]
fn error_codes() {
    assert_eq!(ret(EngineError::PipelineRunning), -7);
    assert_eq!(ret(EngineError::PipelineNotRunning), -6);
    assert_eq!(ret(EngineError::PluginError("x".to_string())), -8);
    assert_eq!(ret(EngineError::ProcessingError("x".to_string())), -1);
    assert_eq!(ret(EngineError::ViewError(ViewError::DuplicateViewName("v".to_string()))), -2);
    assert_eq!(ret(EngineError::ViewError(ViewError::MissingViewName("v".to_string()))), -3);
    assert_eq!(ret(EngineError::ViewError(ViewError::MissingViewID(4))), -5);
    assert_eq!(ret(EngineError::ViewError(ViewError::ThreadingErr("t".to_string()))), -9);
    assert_eq!(PVMErr::EINVALIDARG.code(), 4);
    assert_eq!(PVMErr::from(EngineError::PipelineRunning), PVMErr::EPIPELINERUNNING);
}

#[test]
fn line_framing() {
    assert_eq!(frame_line(""), None);
    assert_eq!(frame_line("["), None);
    assert_eq!(frame_line("]"), None);
    assert_eq!(frame_line(", {\"a\":1}"), Some("{\"a\":1}".to_string()));
    assert_eq!(frame_line("{\"a\":1}"), Some("{\"a\":1}".to_string()));
    assert_eq!(frame_line(","), Some(",".to_string()));
}

#[test]
fn fd_classes() {
    assert_eq!(fd_class(0o100644), FdClass::File);
    assert_eq!(fd_class(0o140777), FdClass::Socket);
    assert_eq!(fd_class(0o010600), FdClass::Fifo);
    assert_eq!(fd_class(0o020620), FdClass::Terminal);
    assert_eq!(fd_class(0o040755), FdClass::Other);
    assert!(matches!(io_type_for(FdClass::File, None), Ok(IOType::File)));
    assert!(matches!(io_type_for(FdClass::Fifo, None), Ok(IOType::Pipe)));
    assert!(matches!(
        io_type_for(FdClass::Socket, Some((SockFamily::Inet, SockKind::Datagram))),
        Ok(IOType::UdpSocket)
    ));
    assert!(matches!(
        io_type_for(FdClass::Socket, Some((SockFamily::Unix, SockKind::Other))),
        Ok(IOType::UnixStream)
    ));
    assert!(io_type_for(FdClass::Terminal, None).is_err());
    assert!(io_type_for(FdClass::Socket, Some((SockFamily::Inet, SockKind::Other))).is_err());
}

#[test]
fn view_registry() {
    let mut r = ViewRegistry::new();
    assert_eq!(r.register_view_type("DBGView").ok(), Some(0));
    assert_eq!(r.register_view_type("ProcTreeView").ok(), Some(1));
    assert!(matches!(r.register_view_type("DBGView"), Err(ViewError::DuplicateViewName(_))));
    assert_eq!(r.create_view_with_id(1).ok(), Some(0));
    assert_eq!(r.create_view_with_name("DBGView").ok(), Some(1));
    assert!(matches!(r.create_view_with_id(7), Err(ViewError::MissingViewID(7))));
    assert!(matches!(r.create_view_with_name("Nope"), Err(ViewError::MissingViewName(_))));
    assert_eq!(r.insts.len(), 2);
    assert_eq!(r.insts[1].vtype, 0);
}

#[test]
fn view_flags_and_params() {
    assert_eq!(view_flag_name("DBGView"), "dbg");
    assert_eq!(view_flag_name("Neo4JView"), "neo4j");
    assert_eq!(view_flag_name("Plain"), "plain");
    assert_eq!(param_flag_name("dbg", "Output"), "dbg-output");
    let mut p = ViewParams::new();
    assert_eq!(p.get_or_def("output", "./dbg.trace"), "./dbg.trace");
    p.insert_param("output", "/tmp/x");
    p.insert_param("output", "/tmp/y");
    assert_eq!(p.get_or_def("output", "./dbg.trace"), "/tmp/y");
    let v = DBGView::new(3);
    assert_eq!((v.id(), v.name()), (3, "DBGView"));
    assert_eq!(v.params().len(), 1);
    let t = ProcTreeView::new(4);
    assert_eq!(t.name(), "ProcTreeView");
    assert_eq!(t.params().len(), 2);
    assert!(!t.desc().is_empty());
}

#[test]
fn process_name_changes() {
    assert!(!neq(&None, &None));
    assert!(neq(&Some("a"), &None));
    assert!(neq(&None, &Some("a".to_string())));
    assert!(!neq(&Some("a"), &Some("a".to_string())));
    assert!(neq(&Some("a"), &Some("b".to_string())));
}

#[test]
fn file_nodes_and_version() {
    let f = File::new(5, 9, Some(FileInit { name: "x".to_string() }));
    assert_eq!((f.get_db_id(), f.get_uuid(), f.name.as_str()), (5, 9, "x"));
    assert_eq!(File::new(1, 2, None).name, "");
    assert_eq!(version(), "0.1.0");
}
