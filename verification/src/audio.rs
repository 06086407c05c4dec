use vstd::prelude::*;
use vstd::string::*;
use crate::text::str_eq;

verus! {

/// A piece of music playing in a group.
#[derive(Debug, Clone)]
pub struct MusicId {
    pub track: String,
    pub music: String,
}

/// Why an audio request could not be carried out.
#[derive(Debug, Clone)]
pub enum AudioError {
    /// No group of this name. For an effect request the name given is the
    /// effect's.
    GroupNotFound(String),
    /// The group has no effect of this name.
    EffectNotFound(String),
    /// No audio resource of this name.
    AudioNotFound(String),
    /// This music is not playing in this group.
    NotPlaying { music: String, group: String },
}

/// A group of sounds: its name and the names of its effects.
#[derive(Debug, Clone)]
pub struct AudioGroup {
    pub name: String,
    pub effects: Vec<String>,
}

/// Some group of `s` is called `n`.
pub open spec fn has_audio_group(s: Seq<AudioGroup>, n: Seq<char>) -> bool {
    exists|i: int| 0 <= i < s.len() && s[i].name@ == n
}

/// No two groups of `s` share a name.
pub open spec fn unique_group_names(s: Seq<AudioGroup>) -> bool {
    forall|i: int, j: int| 0 <= i < s.len() && 0 <= j < s.len() && i != j ==> s[i].name@ != s[j].name@
}

/// The names of the strings of `v`.
pub open spec fn string_set(v: Seq<String>) -> Set<Seq<char>> {
    Set::new(|x: Seq<char>| exists|i: int| 0 <= i < v.len() && v[i]@ == x)
}

/// The effects of the group of `s` called `n`.
pub open spec fn effects_of(s: Seq<AudioGroup>, n: Seq<char>) -> Set<Seq<char>> {
    let i = choose|i: int| 0 <= i < s.len() && s[i].name@ == n;
    string_set(s[i].effects@)
}

/// The groups of `s` as a map from name to effect names.
pub open spec fn audio_groups_map(s: Seq<AudioGroup>) -> Map<Seq<char>, Set<Seq<char>>> {
    Map::new(|n: Seq<char>| has_audio_group(s, n), |n: Seq<char>| effects_of(s, n))
}

proof fn lemma_effects_at(s: Seq<AudioGroup>, n: Seq<char>, i: int)
    requires
        unique_group_names(s),
        0 <= i < s.len(),
        s[i].name@ == n,
    ensures
        effects_of(s, n) == string_set(s[i].effects@),
{
    let j = choose|j: int| 0 <= j < s.len() && s[j].name@ == n;
    assert(j == i);
}

/// The group and music name of each playing piece.
pub open spec fn music_set(v: Seq<MusicId>) -> Set<(Seq<char>, Seq<char>)> {
    Set::new(
        |x: (Seq<char>, Seq<char>)|
            exists|i: int| 0 <= i < v.len() && v[i].track@ == x.0 && v[i].music@ == x.1,
    )
}

/// Which groups and effects exist and which music is playing: the
/// decisions of the audio system, apart from the sound itself.
#[derive(Debug, Clone)]
pub struct AudioRegistry {
    groups: Vec<AudioGroup>,
    musics: Vec<MusicId>,
}

impl AudioRegistry {
    /// The groups by name, with the names of their effects.
    pub closed spec fn groups(&self) -> Map<Seq<char>, Set<Seq<char>>> {
        audio_groups_map(self.groups@)
    }

    /// The music playing, as group and music names.
    pub closed spec fn playing(&self) -> Set<(Seq<char>, Seq<char>)> {
        music_set(self.musics@)
    }

    /// No group name occurs twice.
    pub closed spec fn wf(&self) -> bool {
        unique_group_names(self.groups@)
    }

    /// No groups and nothing playing.
    pub fn new() -> (r: Self)
        ensures
            r.wf(),
            r.groups() == Map::<Seq<char>, Set<Seq<char>>>::empty(),
            r.playing() == Set::<(Seq<char>, Seq<char>)>::empty(),
    {
        let r = AudioRegistry { groups: Vec::new(), musics: Vec::new() };
        assert(r.groups() =~= Map::<Seq<char>, Set<Seq<char>>>::empty());
        assert(r.playing() =~= Set::<(Seq<char>, Seq<char>)>::empty());
        r
    }

    /// Where the group called `name` is, if there is one.
    fn find_group(&self, name: &str) -> (r: Option<usize>)
        ensures
            match r {
                Some(i) => i < self.groups.len() && self.groups@[i as int].name@ == name@,
                None => !has_audio_group(self.groups@, name@),
            },
    {
        let mut k: usize = 0;
        while k < self.groups.len()
            invariant
                k <= self.groups.len(),
                forall|x: int| 0 <= x < k ==> self.groups@[x].name@ != name@,
            decreases self.groups.len() - k,
        {
            if str_eq(self.groups[k].name.as_str(), name) {
                return Some(k);
            }
            k = k + 1;
        }
        None
    }

    /// Adds the group called `name` with the given effects; a group of
    /// that name that was there before is replaced.
    pub fn add_group(&mut self, name: String, effects: Vec<String>)
        requires
            old(self).wf(),
        ensures
            final(self).wf(),
            final(self).groups() == old(self).groups().insert(name@, string_set(effects@)),
            final(self).playing() == old(self).playing(),
    {
        let ghost s0 = self.groups@;
        let ghost nv = name@;
        let ghost ev = effects@;
        match self.find_group(name.as_str()) {
            Some(i) => {
                self.groups.set(i, AudioGroup { name, effects });
                proof {
                    let t = self.groups@;
                    assert(t =~= s0.update(i as int, t[i as int]));
                    assert forall|a: int, b: int|
                        0 <= a < t.len() && 0 <= b < t.len() && a != b implies t[a].name@
                        != t[b].name@ by {
                        if a != i && b != i {
                            assert(t[a] == s0[a] && t[b] == s0[b]);
                        } else if a == i {
                            assert(t[b] == s0[b]);
                        } else {
                            assert(t[a] == s0[a]);
                        }
                    }
                    assert forall|n: Seq<char>| has_audio_group(t, n) == has_audio_group(s0, n) by {
                        if has_audio_group(s0, n) {
                            let x = choose|x: int| 0 <= x < s0.len() && s0[x].name@ == n;
                            if x == i {
                                assert(t[x].name@ == n);
                            } else {
                                assert(t[x] == s0[x]);
                            }
                        }
                        if has_audio_group(t, n) {
                            let x = choose|x: int| 0 <= x < t.len() && t[x].name@ == n;
                            if x == i {
                                assert(s0[x].name@ == n);
                            } else {
                                assert(t[x] == s0[x]);
                            }
                        }
                    }
                    let target = audio_groups_map(s0).insert(nv, string_set(ev));
                    assert forall|n: Seq<char>| #[trigger] target.dom().contains(n) == has_audio_group(
                        t,
                        n,
                    ) by {
                        if n == nv {
                            assert(t[i as int].name@ == n);
                        }
                    }
                    assert forall|n: Seq<char>| has_audio_group(t, n) implies #[trigger] audio_groups_map(
                        t,
                    )[n] == target[n] by {
                        let x = choose|x: int| 0 <= x < t.len() && t[x].name@ == n;
                        lemma_effects_at(t, n, x);
                        if x == i {
                            assert(t[x].effects@ == ev);
                        } else {
                            assert(t[x] == s0[x]);
                            lemma_effects_at(s0, n, x);
                        }
                    }
                    assert(audio_groups_map(t) =~= target);
                }
            },
            None => {
                self.groups.push(AudioGroup { name, effects });
                proof {
                    let t = self.groups@;
                    let last = s0.len() as int;
                    assert forall|a: int, b: int|
                        0 <= a < t.len() && 0 <= b < t.len() && a != b implies t[a].name@
                        != t[b].name@ by {
                        if a == last {
                            assert(t[b] == s0[b]);
                        } else if b == last {
                            assert(t[a] == s0[a]);
                        } else {
                            assert(t[a] == s0[a] && t[b] == s0[b]);
                        }
                    }
                    assert forall|n: Seq<char>| has_audio_group(t, n) == (has_audio_group(s0, n)
                        || n == nv) by {
                        if has_audio_group(s0, n) {
                            let x = choose|x: int| 0 <= x < s0.len() && s0[x].name@ == n;
                            assert(t[x] == s0[x]);
                        }
                        if n == nv {
                            assert(t[last].name@ == n);
                        }
                        if has_audio_group(t, n) && n != nv {
                            let x = choose|x: int| 0 <= x < t.len() && t[x].name@ == n;
                            assert(x < last);
                            assert(t[x] == s0[x]);
                        }
                    }
                    let target = audio_groups_map(s0).insert(nv, string_set(ev));
                    assert forall|n: Seq<char>| #[trigger] target.dom().contains(n) == has_audio_group(
                        t,
                        n,
                    ) by {}
                    assert forall|n: Seq<char>| has_audio_group(t, n) implies #[trigger] audio_groups_map(
                        t,
                    )[n] == target[n] by {
                        let x = choose|x: int| 0 <= x < t.len() && t[x].name@ == n;
                        lemma_effects_at(t, n, x);
                        if x == last {
                            assert(t[x].effects@ == ev);
                        } else {
                            assert(t[x] == s0[x]);
                            lemma_effects_at(s0, n, x);
                        }
                    }
                    assert(audio_groups_map(t) =~= target);
                }
            },
        }
    }

    /// Whether the effect called `effect` of the group called `group` can
    /// be changed. An unknown group is reported under the effect's name.
    pub fn set_effect(&self, group: &str, effect: &str) -> (r: Result<(), AudioError>)
        requires
            self.wf(),
        ensures
            !self.groups().dom().contains(group@) ==> (r matches Err(AudioError::GroupNotFound(n))
                && n@ == effect@),
            self.groups().dom().contains(group@) && !self.groups()[group@].contains(effect@)
                ==> (r matches Err(AudioError::EffectNotFound(n)) && n@ == effect@),
            self.groups().dom().contains(group@) && self.groups()[group@].contains(effect@)
                ==> r is Ok,
    {
        match self.find_group(group) {
            None => Err(AudioError::GroupNotFound(crate::text::to_string(effect))),
            Some(i) => {
                proof {
                    lemma_effects_at(self.groups@, group@, i as int);
                }
                let effects = &self.groups[i].effects;
                assert(self.groups().dom().contains(group@));
                let mut k: usize = 0;
                while k < effects.len()
                    invariant
                        k <= effects.len(),
                        forall|x: int| 0 <= x < k ==> effects@[x]@ != effect@,
                        self.groups().dom().contains(group@),
                        self.groups()[group@] == string_set(effects@),
                    decreases effects.len() - k,
                {
                    if str_eq(effects[k].as_str(), effect) {
                        assert(string_set(effects@).contains(effect@));
                        return Ok(());
                    }
                    k = k + 1;
                }
                Err(AudioError::EffectNotFound(crate::text::to_string(effect)))
            },
        }
    }

    /// Whether music called `music` can start in the group called `group`,
    /// given whether an audio resource of that name was found.
    pub fn check_play(&self, group: &str, music: &str, audio_found: bool) -> (r: Result<
        (),
        AudioError,
    >)
        requires
            self.wf(),
        ensures
            !self.groups().dom().contains(group@) ==> (r matches Err(AudioError::GroupNotFound(n))
                && n@ == group@),
            self.groups().dom().contains(group@) && !audio_found ==> (r matches Err(
                AudioError::AudioNotFound(n),
            ) && n@ == music@),
            self.groups().dom().contains(group@) && audio_found ==> r is Ok,
    {
        match self.find_group(group) {
            None => Err(AudioError::GroupNotFound(crate::text::to_string(group))),
            Some(_) => {
                if audio_found {
                    Ok(())
                } else {
                    Err(AudioError::AudioNotFound(crate::text::to_string(music)))
                }
            },
        }
    }

    /// Where the piece `id` is in the playing list, if it is there.
    fn find_music(&self, group: &str, music: &str) -> (r: Option<usize>)
        ensures
            match r {
                Some(i) => i < self.musics.len() && self.musics@[i as int].track@ == group@
                    && self.musics@[i as int].music@ == music@,
                None => !self.playing().contains((group@, music@)),
            },
    {
        let mut k: usize = 0;
        while k < self.musics.len()
            invariant
                k <= self.musics.len(),
                forall|x: int|
                    0 <= x < k ==> !(self.musics@[x].track@ == group@ && self.musics@[x].music@
                        == music@),
            decreases self.musics.len() - k,
        {
            if str_eq(self.musics[k].track.as_str(), group) && str_eq(
                self.musics[k].music.as_str(),
                music,
            ) {
                return Some(k);
            }
            k = k + 1;
        }
        None
    }

    /// Records that the music `id` is now playing; a piece of the same
    /// group and name is replaced.
    pub fn started(&mut self, id: MusicId)
        ensures
            final(self).playing() == old(self).playing().insert((id.track@, id.music@)),
            final(self).groups() == old(self).groups(),
            final(self).wf() == old(self).wf(),
    {
        let ghost key = (id.track@, id.music@);
        match self.find_music(id.track.as_str(), id.music.as_str()) {
            Some(i) => {
                let ghost s0 = self.musics@;
                self.musics.set(i, id);
                proof {
                    let t = self.musics@;
                    assert forall|x: (Seq<char>, Seq<char>)| music_set(t).contains(x) == music_set(
                        s0,
                    ).contains(x) by {
                        if music_set(s0).contains(x) {
                            let j = choose|j: int|
                                0 <= j < s0.len() && s0[j].track@ == x.0 && s0[j].music@ == x.1;
                            if j != i {
                                assert(t[j] == s0[j]);
                            } else {
                                assert(t[j].track@ == x.0 && t[j].music@ == x.1);
                            }
                        }
                        if music_set(t).contains(x) {
                            let j = choose|j: int|
                                0 <= j < t.len() && t[j].track@ == x.0 && t[j].music@ == x.1;
                            if j != i {
                                assert(t[j] == s0[j]);
                            } else {
                                assert(s0[j].track@ == x.0 && s0[j].music@ == x.1);
                            }
                        }
                    }
                    assert(music_set(s0).contains(key));
                    assert(music_set(t) =~= music_set(s0).insert(key));
                }
            },
            None => {
                let ghost s0 = self.musics@;
                self.musics.push(id);
                proof {
                    let t = self.musics@;
                    assert forall|x: (Seq<char>, Seq<char>)| music_set(t).contains(x) == (music_set(
                        s0,
                    ).contains(x) || x == key) by {
                        if music_set(s0).contains(x) {
                            let j = choose|j: int|
                                0 <= j < s0.len() && s0[j].track@ == x.0 && s0[j].music@ == x.1;
                            assert(t[j] == s0[j]);
                        }
                        if x == key {
                            assert(t[s0.len() as int].track@ == x.0);
                        }
                        if music_set(t).contains(x) && x != key {
                            let j = choose|j: int|
                                0 <= j < t.len() && t[j].track@ == x.0 && t[j].music@ == x.1;
                            assert(j < s0.len());
                            assert(t[j] == s0[j]);
                        }
                    }
                    assert(music_set(t) =~= music_set(s0).insert(key));
                }
            },
        }
    }

    /// Whether the music called `music` is playing in the group called
    /// `group`, so that it can be paused, resumed, stopped, sought in, or
    /// have its volume or panning changed.
    pub fn find_playing(&self, group: &str, music: &str) -> (r: Result<(), AudioError>)
        ensures
            self.playing().contains((group@, music@)) ==> r is Ok,
            !self.playing().contains((group@, music@)) ==> (r matches Err(
                AudioError::NotPlaying { music: m, group: g },
            ) && m@ == music@ && g@ == group@),
    {
        match self.find_music(group, music) {
            Some(_) => Ok(()),
            None => Err(
                AudioError::NotPlaying {
                    music: crate::text::to_string(music),
                    group: crate::text::to_string(group),
                },
            ),
        }
    }
}

impl AudioError {
    /// The message the error is reported with.
    pub fn message(&self) -> (r: String)
        ensures
            r@ == match self {
                AudioError::GroupNotFound(n) => "group "@ + n@ + " Not Found!"@,
                AudioError::EffectNotFound(n) => "effect "@ + n@ + " Not Found!"@,
                AudioError::AudioNotFound(n) => "audio "@ + n@ + " Not Found!"@,
                AudioError::NotPlaying { music, group } => "audio "@ + music@ + " of group "@
                    + group@ + " Not Found!"@,
            },
    {
        let mut s = String::new();
        match self {
            AudioError::GroupNotFound(n) => {
                s.append("group ");
                s.append(n.as_str());
            },
            AudioError::EffectNotFound(n) => {
                s.append("effect ");
                s.append(n.as_str());
            },
            AudioError::AudioNotFound(n) => {
                s.append("audio ");
                s.append(n.as_str());
            },
            AudioError::NotPlaying { music, group } => {
                s.append("audio ");
                s.append(music.as_str());
                s.append(" of group ");
                s.append(group.as_str());
            },
        }
        s.append(" Not Found!");
        s
    }
}

/// Once a piece has started, a request to control it is accepted: after
/// `started(id)`, `find_playing` finds `id`, finds every piece it found
/// before, and finds nothing new but `id`. Starting the same piece again
/// changes nothing.
pub proof fn started_music_is_found(
    before: &AudioRegistry,
    after: &AudioRegistry,
    id: MusicId,
    group: Seq<char>,
    music: Seq<char>,
)
    requires
        after.playing() == before.playing().insert((id.track@, id.music@)),
    ensures
        after.playing().contains((id.track@, id.music@)),
        (group, music) != (id.track@, id.music@) ==> after.playing().contains((group, music))
            == before.playing().contains((group, music)),
        after.playing().insert((id.track@, id.music@)) == after.playing(),
{
    assert(after.playing().insert((id.track@, id.music@)) =~= after.playing());
}

} // verus!
