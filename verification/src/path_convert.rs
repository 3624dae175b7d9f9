//! Turning the paths of entries from absolute to relative and back. Relative paths are seen from
//! the directory of the settings.

use vstd::prelude::*;

use crate::models::{AppInfo, UserConfig};
use crate::paths::{
    adjoins, is_absolute, join_path, path_begins_with, path_is_absolute, path_join, path_remainder,
    path_same, remainder_of,
};
use crate::text::opt_text;
use crate::web::{begins_like_web, looks_like_web};

verus! {

/// Where a stored path leads, seen from `base`. Addresses of the web lead where they say.
pub open spec fn resolved(base: Seq<char>, stored: Seq<char>) -> Seq<char> {
    if looks_like_web(stored) || path_is_absolute(stored) {
        stored
    } else {
        path_join(base, stored)
    }
}

/// Where the stored path leads, seen from `base`. Where `base` is absolute, what is given leads
/// to itself: to resolve it again changes nothing.
pub fn resolve_path(base: &str, stored: &str) -> (r: String)
    ensures
        r@ == resolved(base@, stored@),
        path_is_absolute(base@) ==> resolved(base@, r@) == r@,
{
    if begins_like_web(stored) {
        return stored.to_owned();
    }
    if is_absolute(stored) {
        stored.to_owned()
    } else {
        join_path(base, stored)
    }
}

/// Whether the entry leads to the web, so that its path is no file's.
pub open spec fn leads_to_web(app: AppInfo) -> bool {
    app.web_url is Some || looks_like_web(app.path@)
}

fn is_web_entry(app: &AppInfo) -> (r: bool)
    ensures
        r == leads_to_web(*app),
{
    app.web_url.is_some() || begins_like_web(app.path.as_str())
}

/// The path that is looked up to convert an entry's, seen from `base`. None where the entry
/// leads to the web.
pub fn conversion_target(app: &AppInfo, base: &str) -> (r: Option<String>)
    ensures
        opt_text(r) == (if leads_to_web(*app) {
            None
        } else {
            Some(resolved(base@, app.path@))
        }),
{
    if is_web_entry(app) {
        None
    } else {
        Some(resolve_path(base, app.path.as_str()))
    }
}

/// What was found of a path: its canonical form, and whether it leads to anything.
#[derive(Debug)]
pub struct PathProbe {
    pub canonical: Option<String>,
    pub exists: bool,
}

/// The path of an entry made absolute: the canonical form of where it leads, or else where it
/// leads, if there is anything.
pub open spec fn absolute_path(app: AppInfo, base: Seq<char>, probe: PathProbe) -> Seq<char> {
    if leads_to_web(app) {
        app.path@
    } else {
        match probe.canonical {
            Some(c) => c@,
            None => if probe.exists {
                resolved(base, app.path@)
            } else {
                app.path@
            },
        }
    }
}

/// The path of an entry that leads to the web is converted neither way.
pub proof fn web_entries_are_not_converted(
    app: AppInfo,
    base: Seq<char>,
    root: Seq<char>,
    probe: PathProbe,
    canonical: Option<String>,
)
    requires
        leads_to_web(app),
    ensures
        absolute_path(app, base, probe) == app.path@,
        relative_path(app, base, root, canonical) == app.path@,
{
}

/// Whether `after` is `before` with another path.
pub open spec fn same_but_path(before: AppInfo, after: AppInfo) -> bool {
    after == (AppInfo { path: after.path, ..before })
}

/// Whether `after` is the entry `before` with its path made absolute.
pub open spec fn made_absolute(
    before: AppInfo,
    after: AppInfo,
    base: Seq<char>,
    probe: PathProbe,
) -> bool {
    same_but_path(before, after) && after.path@ == absolute_path(before, base, probe)
}

/// Whether `after` is `before` with the path of every entry made absolute.
pub open spec fn all_made_absolute(
    before: UserConfig,
    after: UserConfig,
    base: Seq<char>,
    probes: Seq<PathProbe>,
) -> bool {
    &&& after == (UserConfig { apps: after.apps, ..before })
    &&& after.apps@.len() == before.apps@.len()
    &&& forall|i: int|
        0 <= i < before.apps@.len() ==> made_absolute(
            before.apps@[i],
            #[trigger] after.apps@[i],
            base,
            probes[i],
        )
}

/// Makes the path of every entry absolute, given what was found of where each leads.
pub fn convert_all_to_absolute(config: &mut UserConfig, base: &str, probes: &Vec<PathProbe>)
    requires
        probes@.len() == old(config).apps@.len(),
    ensures
        all_made_absolute(*old(config), *final(config), base@, probes@),
{
    let n = config.apps.len();
    let mut i: usize = 0;
    while i < n
        invariant
            i <= n,
            n == config.apps@.len(),
            n == old(config).apps@.len(),
            n == probes@.len(),
            *config == (UserConfig { apps: config.apps, ..*old(config) }),
            forall|k: int|
                0 <= k < i ==> made_absolute(
                    old(config).apps@[k],
                    #[trigger] config.apps@[k],
                    base@,
                    probes@[k],
                ),
            forall|k: int| i <= k < n ==> #[trigger] config.apps@[k] == old(config).apps@[k],
        decreases n - i,
    {
        let target = conversion_target(&config.apps[i], base);
        if let Some(leads_to) = target {
            match &probes[i].canonical {
                Some(c) => {
                    let path = c.clone();
                    config.apps[i].path = path;
                },
                None => {
                    if probes[i].exists {
                        config.apps[i].path = leads_to;
                    }
                },
            }
        }
        i = i + 1;
    }
}

/// Where an entry leads: the canonical form if it was found.
pub open spec fn found_path(app: AppInfo, base: Seq<char>, canonical: Option<String>) -> Seq<char> {
    match canonical {
        Some(c) => c@,
        None => resolved(base, app.path@),
    }
}

/// The path of an entry made relative to the root `root`: what follows the root in where it
/// leads. One that leads elsewhere stays.
pub open spec fn relative_path(
    app: AppInfo,
    base: Seq<char>,
    root: Seq<char>,
    canonical: Option<String>,
) -> Seq<char> {
    if leads_to_web(app) {
        app.path@
    } else {
        match path_remainder(found_path(app, base, canonical), root) {
            Some(rest) => rest,
            None => app.path@,
        }
    }
}

/// Whether `after` is the entry `before` with its path made relative to the root `root`. A path
/// that was made relative leads, from the root, where the entry led, if it [`adjoins`] the root.
/// One that leads elsewhere stays as it was.
pub open spec fn made_relative(
    before: AppInfo,
    after: AppInfo,
    base: Seq<char>,
    root: Seq<char>,
    canonical: Option<String>,
) -> bool {
    let led_to = found_path(before, base, canonical);
    &&& same_but_path(before, after)
    &&& after.path@ == relative_path(before, base, root, canonical)
    &&& !leads_to_web(before) && path_begins_with(led_to, root) && adjoins(root, after.path@) ==> {
        &&& path_same(path_join(root, after.path@), led_to)
        &&& !path_is_absolute(after.path@)
    }
    &&& !leads_to_web(before) && !path_begins_with(led_to, root) ==> after.path@ == before.path@
}

/// Whether `after` is `before` with the path of every entry made relative to the root `root`.
pub open spec fn all_made_relative(
    before: UserConfig,
    after: UserConfig,
    base: Seq<char>,
    root: Seq<char>,
    canonical: Seq<Option<String>>,
) -> bool {
    &&& after == (UserConfig { apps: after.apps, ..before })
    &&& after.apps@.len() == before.apps@.len()
    &&& forall|i: int|
        0 <= i < before.apps@.len() ==> made_relative(
            before.apps@[i],
            #[trigger] after.apps@[i],
            base,
            root,
            canonical[i],
        )
}

/// The directory that paths are made relative to: the canonical form of `base` if it was found.
pub open spec fn conversion_root(base: Seq<char>, base_canonical: Option<String>) -> Seq<char> {
    match base_canonical {
        Some(c) => c@,
        None => base,
    }
}

/// Makes the path of every entry under `base` relative to it, given the canonical form of `base`
/// and of where each entry leads, as far as they were found.
pub fn convert_all_to_relative(
    config: &mut UserConfig,
    base: &str,
    base_canonical: Option<String>,
    canonical: &Vec<Option<String>>,
)
    requires
        canonical@.len() == old(config).apps@.len(),
    ensures
        all_made_relative(
            *old(config),
            *final(config),
            base@,
            conversion_root(base@, base_canonical),
            canonical@,
        ),
{
    let root = match base_canonical {
        Some(c) => c,
        None => base.to_owned(),
    };
    let n = config.apps.len();
    let mut i: usize = 0;
    while i < n
        invariant
            i <= n,
            n == config.apps@.len(),
            n == old(config).apps@.len(),
            n == canonical@.len(),
            *config == (UserConfig { apps: config.apps, ..*old(config) }),
            root@ == conversion_root(base@, base_canonical),
            forall|k: int|
                0 <= k < i ==> made_relative(
                    old(config).apps@[k],
                    #[trigger] config.apps@[k],
                    base@,
                    root@,
                    canonical@[k],
                ),
            forall|k: int| i <= k < n ==> #[trigger] config.apps@[k] == old(config).apps@[k],
        decreases n - i,
    {
        let target = conversion_target(&config.apps[i], base);
        if let Some(leads_to) = target {
            let found = match &canonical[i] {
                Some(c) => c.clone(),
                None => leads_to,
            };
            if let Some(rest) = remainder_of(found.as_str(), root.as_str()) {
                config.apps[i].path = rest;
            }
        }
        i = i + 1;
    }
}

/// What the file system finds of an entry before and after its path is made relative: `canon`
/// gives the canonical form of a path that leads to something. It finds the same thing under the
/// directory `base` as under its canonical form `root`, and under a canonical path however its
/// components are written. A new path must [`adjoin`](adjoins) the root and not look like an
/// address of the web.
pub open spec fn found_alike(
    first: AppInfo,
    second: AppInfo,
    base: Seq<char>,
    root: Seq<char>,
    canonical: Option<String>,
    probe: PathProbe,
    canon: spec_fn(Seq<char>) -> Option<Seq<char>>,
) -> bool {
    let joined = path_join(root, second.path@);
    let place = canonical->0@;
    &&& canonical is Some
    &&& canon(resolved(base, first.path@)) == Some(place)
    &&& opt_text(probe.canonical) == canon(resolved(base, second.path@))
    &&& canon(path_join(base, second.path@)) == canon(joined)
    &&& path_same(joined, place) ==> canon(joined) == Some(place)
    &&& path_begins_with(place, root) ==> adjoins(root, second.path@) && !looks_like_web(
        second.path@,
    )
}

/// An entry whose path is made relative and then absolute again leads where it led: its path is
/// then the canonical form of where it led.
pub proof fn relative_path_leads_back(
    first: AppInfo,
    second: AppInfo,
    third: AppInfo,
    base: Seq<char>,
    root: Seq<char>,
    canonical: Option<String>,
    probe: PathProbe,
    canon: spec_fn(Seq<char>) -> Option<Seq<char>>,
)
    requires
        made_relative(first, second, base, root, canonical),
        made_absolute(second, third, base, probe),
        !leads_to_web(first),
        found_alike(first, second, base, root, canonical, probe, canon),
    ensures
        same_but_path(first, third),
        canon(resolved(base, first.path@)) == Some(third.path@),
{
}

/// Making paths relative and then absolute again restores the settings in which every path that
/// does not lead to the web is absolute and canonical, whether it leads under the root or not.
pub proof fn absolute_paths_come_back(
    first: UserConfig,
    second: UserConfig,
    third: UserConfig,
    base: Seq<char>,
    root: Seq<char>,
    canonical: Seq<Option<String>>,
    probes: Seq<PathProbe>,
    canon: spec_fn(Seq<char>) -> Option<Seq<char>>,
)
    requires
        all_made_relative(first, second, base, root, canonical),
        all_made_absolute(second, third, base, probes),
        forall|i: int|
            0 <= i < first.apps@.len() && !leads_to_web(#[trigger] first.apps@[i]) ==> {
                &&& path_is_absolute(first.apps@[i].path@)
                &&& canon(first.apps@[i].path@) == Some(first.apps@[i].path@)
                &&& found_alike(
                    first.apps@[i],
                    second.apps@[i],
                    base,
                    root,
                    canonical[i],
                    probes[i],
                    canon,
                )
            },
    ensures
        third == (UserConfig { apps: third.apps, ..first }),
        third.apps@.len() == first.apps@.len(),
        forall|i: int|
            0 <= i < first.apps@.len() ==> same_but_path(
                first.apps@[i],
                #[trigger] third.apps@[i],
            ) && third.apps@[i].path@ == first.apps@[i].path@,
{
    assert forall|i: int| 0 <= i < first.apps@.len() implies same_but_path(
        first.apps@[i],
        #[trigger] third.apps@[i],
    ) && third.apps@[i].path@ == first.apps@[i].path@ by {
        assert(made_relative(first.apps@[i], second.apps@[i], base, root, canonical[i]));
        assert(made_absolute(second.apps@[i], third.apps@[i], base, probes[i]));
        if !leads_to_web(first.apps@[i]) {
            relative_path_leads_back(
                first.apps@[i],
                second.apps@[i],
                third.apps@[i],
                base,
                root,
                canonical[i],
                probes[i],
                canon,
            );
        }
    }
}

} // verus!
