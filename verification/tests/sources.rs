//! Where sources are read from, and how programs are put together.
use goscript::entry::{
    gen_byte_code, import_key, parse_check_gen, Addr, CallStyle, CheckedPackage, Consts, FuncCtx,
    ImportOutcome, InterInst,
};
use goscript::heap::Heap;
use goscript::interface_obj::{Binding4Runtime, IfaceBinding};
use goscript::keys::{FunctionKey, MetadataKey, PackageKey, NULL_KEY};
use goscript::metadata::{Meta, MethodDesc};
use goscript::source::{
    join_path, run, Config, EngineStep, ReadError, SourceReader, Vfs, VfsTree, VirtualFs,
    VIRTUAL_LOCAL_PATH_PREFIX,
};

fn name(s: &str) -> String {
    s.to_string()
}

#[test]
fn paths_are_joined() {
    assert_eq!(join_path("a", "b"), "a/b");
    assert_eq!(join_path("a/", "b"), "a/b");
    assert_eq!(join_path("", "b"), "b");
    assert_eq!(join_path("a", ""), "a/");
    assert_eq!(join_path("a", "/b"), "/b");
    assert_eq!(join_path("\u{e9}", "./b"), "\u{e9}/./b");
}

#[test]
fn a_reader_of_the_machine() {
    let r = SourceReader::local_fs(name("lib"), name("work"));
    assert_eq!(r.base_dir(), Some("lib"));
    assert_eq!(r.working_dir(), "work");
    assert!(matches!(r.vfs(), VfsTree::Single(Vfs::Fs)));
    let r: SourceReader<u8> = SourceReader::new(None, name("w"), 3);
    assert_eq!(r.base_dir(), None);
    assert_eq!(*r.vfs(), 3);
}

#[test]
fn a_reader_of_the_machine_and_a_string() {
    let (r, path) = SourceReader::fs_lib_and_string(name("std"), name("package main"));
    assert_eq!(path, "./temp_file.gos");
    assert_eq!(r.base_dir(), Some("vfs_fs/std"));
    assert_eq!(r.working_dir(), "vfs_local_map/");
    assert!(r.working_dir().starts_with(VIRTUAL_LOCAL_PATH_PREFIX));
    assert!(!r.base_dir().unwrap().starts_with(VIRTUAL_LOCAL_PATH_PREFIX));
    match r.vfs() {
        VfsTree::Compound(parts) => {
            assert_eq!(parts[0].0, "vfs_fs");
            assert!(matches!(parts[0].1, Vfs::Fs));
            assert_eq!(parts[1].0, "vfs_local_map");
            match &parts[1].1 {
                Vfs::Files(files) => {
                    assert_eq!(files, &vec![(name("temp_file.gos"), name("package main"))]);
                }
                _ => panic!("no files"),
            }
        }
        VfsTree::Single(_) => panic!("not a compound"),
    }
}

#[test]
fn a_reader_of_an_archive_and_a_string() {
    let (r, path) = SourceReader::zip_lib_and_string(vec![1, 2], name("std"), name("x"));
    assert_eq!(path, "./temp_file.gos");
    assert_eq!(r.base_dir(), Some("vfs_zip/std"));
    assert_eq!(r.working_dir(), "vfs_local_map/");
    match r.vfs() {
        VfsTree::Compound(parts) => {
            assert_eq!(parts[0].0, "vfs_zip");
            assert!(matches!(&parts[0].1, Vfs::Zip(bytes) if bytes == &vec![1, 2]));
        }
        VfsTree::Single(_) => panic!("not a compound"),
    }
}

#[test]
fn a_reader_of_an_archive_and_the_machine() {
    let r = SourceReader::zip_lib_and_local_fs(vec![5], name("std"), name("home"));
    assert_eq!(r.base_dir(), Some("vfs_zip/std"));
    assert_eq!(r.working_dir(), "vfs_local_local_fs/home");
    match r.vfs() {
        VfsTree::Compound(parts) => {
            assert_eq!(parts[0].0, "vfs_local_local_fs");
            assert!(matches!(parts[0].1, Vfs::Fs));
            assert_eq!(parts[1].0, "vfs_zip");
            assert!(matches!(&parts[1].1, Vfs::Zip(bytes) if bytes == &vec![5]));
        }
        VfsTree::Single(_) => panic!("not a compound"),
    }
    let r = SourceReader::zip_lib_and_local_fs(vec![5], name("std"), name("/home"));
    assert_eq!(r.working_dir(), "/home");
}

struct OneFile;

impl VirtualFs for OneFile {
    fn read_file(&self, path: &str) -> Result<String, ReadError> {
        if path == "a" {
            Ok(name("text"))
        } else {
            Err(ReadError { message: name("no such file") })
        }
    }

    fn read_dir(&self, _path: &str) -> Result<Vec<String>, ReadError> {
        Ok(vec![name("a")])
    }

    fn is_file(&self, path: &str) -> bool {
        path == "a"
    }

    fn is_dir(&self, path: &str) -> bool {
        path == "."
    }

    fn canonicalize_path(&self, path: &str) -> Result<String, ReadError> {
        Ok(format!("/{}", path))
    }
}

#[test]
fn a_reader_reads_from_its_file_system() {
    let r = SourceReader::local_fs(name("b"), name("w")).with_vfs(OneFile);
    assert_eq!(r.working_dir(), "w");
    assert_eq!(r.read_file("a").unwrap(), "text");
    assert_eq!(r.read_file("b").unwrap_err().message, "no such file");
    assert_eq!(r.read_dir(".").unwrap(), vec![name("a")]);
    assert!(r.is_file("a") && !r.is_file("."));
    assert!(r.is_dir(".") && !r.is_dir("a"));
    assert_eq!(r.canonicalize_path("a").unwrap(), "/a");
}

#[test]
fn running_sets_the_streams_first() {
    let source = SourceReader::local_fs(name("b"), name("w"));
    let mut config = Config {
        go_std: true,
        std_in: Some(0),
        std_out: None,
        std_err: Some(2),
        trace_parser: true,
        trace_checker: false,
    };
    let steps = run(config, &source, "main.gos");
    assert_eq!(steps.len(), 2);
    assert!(matches!(steps[0], EngineStep::SetStdIo(Some(0), None, Some(2))));
    assert!(matches!(steps[1], EngineStep::RunSource(true, false, _, "main.gos")));
    config.go_std = false;
    let steps = run(config, &source, "main.gos");
    assert_eq!(steps.len(), 1);
    assert!(matches!(steps[0], EngineStep::RunSource(true, false, _, "main.gos")));
}

fn packages() -> Vec<CheckedPackage> {
    vec![
        CheckedPackage { key: 40, name: Some(name("fmt")) },
        CheckedPackage { key: 30, name: Some(name("main")) },
    ]
}

#[test]
fn errors_are_handed_on() {
    let mut heap = Heap::new();
    let outcome = ImportOutcome {
        errors: vec![name("undefined: x")],
        main_pkg: None,
        packages: vec![],
        idents: vec![],
    };
    match parse_check_gen(outcome, &mut heap) {
        Err(errors) => assert_eq!(errors, vec![name("undefined: x")]),
        Ok(_) => panic!("no error"),
    }
    assert_eq!(import_key("./x.gos"), (name("./x.gos"), name("./")));
}

#[test]
fn a_program_starts_with_its_entry_function() {
    let mut heap = Heap::new();
    let outcome = ImportOutcome {
        errors: vec![],
        main_pkg: Some(30),
        packages: packages(),
        idents: vec![name("x")],
    };
    let program = match parse_check_gen(outcome, &mut heap) {
        Ok(program) => program,
        Err(_) => panic!("errors"),
    };
    assert_eq!(program.idents, vec![name("x"), name("_"), name("main")]);
    assert_eq!((program.blank_ident, program.main_ident), (1, 2));
    let gen = program.gen;
    assert_eq!(gen.packages.len(), 2);
    assert_eq!(gen.packages[1], (30, gen.main_pkg));
    assert_eq!(gen.vmctx.vmo.metas.len(), 1);
    assert_eq!(gen.vmctx.vmo.functions.len(), 1);
    assert_eq!(gen.vmctx.vmo.packages.at(gen.packages[0].1).name, "fmt");
    assert_eq!(gen.vmctx.vmo.packages.at(gen.main_pkg).name, "main");
    let entry = &gen.result_funcs[0];
    assert_eq!(entry.f_key, gen.entry_key);
    assert_eq!(
        entry.code,
        vec![
            InterInst::Import(gen.main_pkg),
            InterInst::LoadPkg(
                Addr::Register(0),
                Addr::PkgConst(0),
                Addr::PkgMemberIndex(gen.main_pkg, 2)
            ),
            InterInst::Call(Addr::Register(0), 0, CallStyle::Default),
            InterInst::Return,
        ]
    );
    assert_eq!(entry.pos, vec![None, None, None, None]);
    let func = gen.vmctx.vmo.functions.at(gen.entry_key);
    assert_eq!(func.package.number, NULL_KEY);
    assert_eq!((func.param_count(), func.ret_count()), (0, 0));
}

#[test]
fn functions_are_added_package_by_package() {
    let mut heap = Heap::new();
    let mut gen = gen_byte_code(&packages(), 30, 0, &mut heap);
    let main_pkg = gen.main_pkg;
    let entry = gen.entry_key;
    let mut next = 100;
    let mut order = vec![];
    while let Some((tc_key, _)) = gen.next_package() {
        order.push(tc_key);
        let f_key = FunctionKey { number: next };
        next += 1;
        gen.add_package_funcs(vec![FuncCtx::new(f_key, Some(tc_key))]);
    }
    assert_eq!(order, vec![40, 30]);
    let methods = vec![MethodDesc { pointer_recv: true, func: Some(FunctionKey { number: 5 }) }];
    let meta = Meta { key: MetadataKey { number: 6 } };
    let bindings = vec![(
        meta,
        vec![IfaceBinding::Iface(1, None), IfaceBinding::Struct(0, None)],
    )];
    let code = gen.into_bytecode(vec![], bindings, &methods, vec![vec![1, 2]]);
    let keys: Vec<u64> = code.funcs.iter().map(|f| f.f_key.number).collect();
    assert_eq!(keys, vec![entry.number, 100, 101]);
    assert_eq!((code.entry, code.main_pkg), (entry, main_pkg));
    assert_eq!(code.indices, vec![vec![1, 2]]);
    assert_eq!(code.ifaces.len(), 1);
    assert_eq!(code.ifaces[0].0, meta);
    assert!(matches!(code.ifaces[0].1[0], Binding4Runtime::Iface(1, None)));
    assert!(matches!(
        code.ifaces[0].1[1],
        Binding4Runtime::Struct(FunctionKey { number: 5 }, true, None)
    ));
    assert_eq!(code.objects.packages.len(), 2);
}

#[test]
fn a_package_is_a_constant_once() {
    let mut consts = Consts::new();
    let a = PackageKey { number: 1 };
    let b = PackageKey { number: 2 };
    assert_eq!(consts.add_package(a), 0);
    assert_eq!(consts.add_package(b), 1);
    assert_eq!(consts.add_package(a), 0);
    assert_eq!(consts.packages, vec![a, b]);
}
