//! The class loader: the search roots, the cache of decoded classes, and
//! the decisions of a load.
//!
//! The loader reads no file itself. A load goes in steps: the loader names
//! one file after the other, root by root, its caller says whether the file
//! exists and reads it, and the loader decodes and caches what was found.

use crate::bytecode::format::spec_class_file;
use crate::bytecode::parser::{ClassFile, ClassFileView, ParseError};
use crate::runtime::string_map::StringMap;
use crate::text::{dots_to_slashes, slashed, str_eq};
use vstd::prelude::*;
use vstd::string::StringExecFns;

verus! {

/// Why a class could not be loaded.
#[derive(Debug, Clone, Copy, PartialEq, Eq, Structural)]
pub enum LoadError {
    /// No search root holds a file for the class.
    NotFound,
    /// The file that was found could not be decoded.
    Parse(ParseError),
}

/// What the loader is told.
#[derive(Debug)]
pub enum LoadEvent {
    /// The class is asked for.
    Request,
    /// The file that was probed exists; these are its bytes.
    Found(Vec<u8>),
    /// The file that was probed under the root with this index does not
    /// exist.
    Missing { root: usize },
}

/// What the loader answers.
#[derive(Debug, PartialEq)]
pub enum LoadAction {
    /// The class is in the cache.
    Loaded,
    /// The file `path` below `directory`, which is the search root with the
    /// index `root`, is to be probed. The loader is then told `Found` with
    /// the bytes of the file, or `Missing` with the index of the root.
    Probe { root: usize, directory: String, path: String },
    /// The class is in the cache now, and its superclass `name` is to be
    /// loaded as well, whatever comes of that.
    LoadSuper { name: String },
    /// The class could not be loaded.
    Failed(LoadError),
}

/// An answer of the loader as a mathematical value.
pub ghost enum LoadActionView {
    Loaded,
    Probe { root: usize, directory: Seq<char>, path: Seq<char> },
    LoadSuper { name: Seq<char> },
    Failed(LoadError),
}

impl View for LoadAction {
    type V = LoadActionView;

    open spec fn view(&self) -> LoadActionView {
        match *self {
            LoadAction::Loaded => LoadActionView::Loaded,
            LoadAction::Probe { root, directory, path } => LoadActionView::Probe {
                root,
                directory: directory@,
                path: path@,
            },
            LoadAction::LoadSuper { name } => LoadActionView::LoadSuper { name: name@ },
            LoadAction::Failed(error) => LoadActionView::Failed(error),
        }
    }
}

/// An event as a mathematical value.
pub ghost enum LoadEventView {
    Request,
    Found(Seq<u8>),
    Missing { root: usize },
}

impl View for LoadEvent {
    type V = LoadEventView;

    open spec fn view(&self) -> LoadEventView {
        match *self {
            LoadEvent::Request => LoadEventView::Request,
            LoadEvent::Found(bytes) => LoadEventView::Found(bytes@),
            LoadEvent::Missing { root } => LoadEventView::Missing { root },
        }
    }
}

/// The views of the classes of `classes`, under their names.
pub open spec fn class_views(classes: Map<Seq<char>, ClassFile>) -> Map<Seq<char>, ClassFileView> {
    Map::new(|name: Seq<char>| classes.contains_key(name), |name: Seq<char>| classes[name]@)
}

/// The search roots in the order in which they came in, and the classes
/// loaded so far under the names they were asked for by.
pub struct ClassLoader {
    search_paths: Vec<String>,
    pub loaded_classes: StringMap<ClassFile>,
}

/// A loader as a mathematical value.
pub ghost struct ClassLoaderView {
    pub search_paths: Seq<Seq<char>>,
    pub classes: Map<Seq<char>, ClassFileView>,
}

/// The file of a class below a search root: the name of the class with
/// `/` for each `.`, and `.class` behind it.
pub open spec fn class_file_path(class_name: Seq<char>) -> Seq<char> {
    slashed(class_name) + ".class"@
}

/// The superclass that is loaded with a class: the one it names, unless it
/// names none or `java/lang/Object`.
pub open spec fn superclass_to_load(class: ClassFileView) -> Option<Seq<char>> {
    match class.class_name(class.super_class) {
        Some(name) => if name == "java/lang/Object"@ {
            None
        } else {
            Some(name)
        },
        None => None,
    }
}

impl ClassLoaderView {
    /// The loader with `class` in its cache under `class_name`.
    pub open spec fn with_class(self, class_name: Seq<char>, class: ClassFileView) -> ClassLoaderView {
        ClassLoaderView { classes: self.classes.insert(class_name, class), ..self }
    }

    /// The probe of the file of `class_name` under the search root with
    /// the index `root`; the failure of the load where there is no such
    /// root.
    pub open spec fn probe(self, class_name: Seq<char>, root: int) -> LoadActionView {
        if 0 <= root < self.search_paths.len() {
            LoadActionView::Probe {
                root: root as usize,
                directory: self.search_paths[root],
                path: class_file_path(class_name),
            }
        } else {
            LoadActionView::Failed(LoadError::NotFound)
        }
    }

    /// What a step of loading `class_name` makes of the loader, and the
    /// answer it gives.
    ///
    /// A request finds the class in the cache or asks for a probe under the
    /// first search root. A file that is missing under one root is probed
    /// under the next, and the load fails behind the last: the first root
    /// that has the file wins. Bytes that were found are decoded: the class
    /// goes into the cache under the name it was asked for by, and its
    /// superclass is named for loading; bytes that hold no class file fail
    /// the load.
    pub open spec fn load_class(self, class_name: Seq<char>, event: LoadEventView) -> (
        ClassLoaderView,
        LoadActionView,
    ) {
        match event {
            LoadEventView::Request => if self.classes.contains_key(class_name) {
                (self, LoadActionView::Loaded)
            } else {
                (self, self.probe(class_name, 0))
            },
            LoadEventView::Found(bytes) => match spec_class_file(bytes) {
                Ok(class) => (
                    self.with_class(class_name, class),
                    match superclass_to_load(class) {
                        Some(name) => LoadActionView::LoadSuper { name },
                        None => LoadActionView::Loaded,
                    },
                ),
                Err(error) => (self, LoadActionView::Failed(LoadError::Parse(error))),
            },
            LoadEventView::Missing { root } => (self, self.probe(class_name, root + 1)),
        }
    }
}

impl View for ClassLoader {
    type V = ClassLoaderView;

    closed spec fn view(&self) -> ClassLoaderView {
        ClassLoaderView {
            search_paths: self.search_paths.deep_view(),
            classes: class_views(self.loaded_classes@),
        }
    }
}

impl ClassLoader {
    /// The cache holds no name twice.
    pub closed spec fn wf(&self) -> bool {
        self.loaded_classes.wf()
    }

    /// A loader with the current directory as its only search root and an
    /// empty cache.
    pub fn new() -> (loader: ClassLoader)
        ensures
            loader.wf(),
            loader@ == (ClassLoaderView { search_paths: seq!["."@], classes: Map::empty() }),
    {
        let mut search_paths: Vec<String> = Vec::new();
        search_paths.push(".".to_owned());
        let loader = ClassLoader { search_paths, loaded_classes: StringMap::new() };
        assert(loader@.search_paths =~= seq!["."@]);
        assert(loader@.classes =~= Map::empty());
        loader
    }

    /// Adds `path` behind the search roots.
    pub fn add_classpath(&mut self, path: &str)
        requires
            old(self).wf(),
        ensures
            final(self).wf(),
            final(self)@ == (ClassLoaderView {
                search_paths: old(self)@.search_paths.push(path@),
                ..old(self)@
            }),
    {
        self.search_paths.push(path.to_owned());
        assert(self@.search_paths =~= old(self)@.search_paths.push(path@));
    }

    /// The search roots, in the order in which they came in.
    pub fn search_paths(&self) -> (roots: Vec<String>)
        ensures
            roots.deep_view() == self@.search_paths,
    {
        let mut roots: Vec<String> = Vec::with_capacity(self.search_paths.len());
        let mut i: usize = 0;
        while i < self.search_paths.len()
            invariant
                i <= self.search_paths.len(),
                roots@.len() == i,
                forall|j: int| 0 <= j < i ==> (#[trigger] roots@[j])@ == self.search_paths@[j]@,
            decreases self.search_paths.len() - i,
        {
            roots.push(self.search_paths[i].clone());
            i += 1;
        }
        assert(roots.deep_view() =~= self@.search_paths);
        roots
    }

    /// The class in the cache under `class_name`, if there is one.
    pub fn get(&self, class_name: &str) -> (r: Option<&ClassFile>)
        requires
            self.wf(),
        ensures
            match r {
                Some(class) => self@.classes.contains_key(class_name@) && class@
                    == self@.classes[class_name@],
                None => !self@.classes.contains_key(class_name@),
            },
    {
        self.loaded_classes.get(class_name)
    }

    /// The file of a class below a search root.
    pub fn class_file_path(class_name: &str) -> (path: String)
        ensures
            path@ == class_file_path(class_name@),
    {
        let mut path = dots_to_slashes(class_name);
        path.append(".class");
        path
    }

    fn probe(&self, class_name: &str, root: usize) -> (action: LoadAction)
        ensures
            action@ == self@.probe(class_name@, root as int),
    {
        if root < self.search_paths.len() {
            assert(self@.search_paths[root as int] == self.search_paths@[root as int]@);
            LoadAction::Probe {
                root,
                directory: self.search_paths[root].clone(),
                path: Self::class_file_path(class_name),
            }
        } else {
            LoadAction::Failed(LoadError::NotFound)
        }
    }

    /// One step of loading `class_name`.
    pub fn load_class(&mut self, class_name: &str, event: LoadEvent) -> (action: LoadAction)
        requires
            old(self).wf(),
        ensures
            final(self).wf(),
            (final(self)@, action@) == old(self)@.load_class(class_name@, event@),
    {
        match event {
            LoadEvent::Request => {
                if self.loaded_classes.contains_key(class_name) {
                    LoadAction::Loaded
                } else {
                    self.probe(class_name, 0)
                }
            },
            LoadEvent::Found(bytes) => match ClassFile::parse(bytes) {
                Ok(class) => {
                    let action = match class.get_class_name(class.super_class) {
                        Some(name) => {
                            if str_eq(name, "java/lang/Object") {
                                LoadAction::Loaded
                            } else {
                                LoadAction::LoadSuper { name: name.to_owned() }
                            }
                        },
                        None => LoadAction::Loaded,
                    };
                    let ghost class_view = class@;
                    self.loaded_classes.insert(class_name.to_owned(), class);
                    assert(self@.classes =~= old(self)@.classes.insert(class_name@, class_view));
                    action
                },
                Err(error) => LoadAction::Failed(LoadError::Parse(error)),
            },
            LoadEvent::Missing { root } => {
                if root < self.search_paths.len() {
                    self.probe(class_name, root + 1)
                } else {
                    LoadAction::Failed(LoadError::NotFound)
                }
            },
        }
    }

    /// The classes that are loaded ahead of a program, in their order. A
    /// failure to load one of them is no fault: the native bridge may stand
    /// in for it.
    pub fn preload_core_classes() -> (names: Vec<String>)
        ensures
            names.deep_view() == seq![
                "java/lang/Object"@,
                "java/lang/String"@,
                "java/lang/System"@,
                "java/io/PrintStream"@,
            ],
    {
        let mut names: Vec<String> = Vec::new();
        names.push("java/lang/Object".to_owned());
        names.push("java/lang/String".to_owned());
        names.push("java/lang/System".to_owned());
        names.push("java/io/PrintStream".to_owned());
        assert(names.deep_view() =~= seq![
            "java/lang/Object"@,
            "java/lang/String"@,
            "java/lang/System"@,
            "java/io/PrintStream"@,
        ]);
        names
    }
}

} // verus!
