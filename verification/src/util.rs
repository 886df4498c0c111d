use vstd::prelude::*;
use vstd::string::StringExecFns;

verus! {

/// The texts of a list of strings.
pub open spec fn string_views(v: Seq<String>) -> Seq<Seq<char>> {
    Seq::new(v.len(), |i: int| v[i]@)
}

/// A program and its arguments joined by single spaces, as a command is
/// shown and matched.
pub open spec fn command_line(program: Seq<char>, args: Seq<Seq<char>>) -> Seq<char>
    decreases args.len(),
{
    if args.len() == 0 {
        program
    } else {
        command_line(program, args.drop_last()) + seq![' '] + args.last()
    }
}

/// A command to run: a program, its arguments and the environment variables
/// it is given on top of the inherited ones.
pub struct SystemCommand {
    program: String,
    args: Vec<String>,
    envs: Vec<(String, String)>,
}

impl SystemCommand {
    pub closed spec fn program_view(&self) -> Seq<char> {
        self.program@
    }

    pub closed spec fn args_view(&self) -> Seq<Seq<char>> {
        string_views(self.args@)
    }

    pub closed spec fn envs_view(&self) -> Seq<(Seq<char>, Seq<char>)> {
        Seq::new(self.envs@.len(), |i: int| (self.envs@[i].0@, self.envs@[i].1@))
    }

    /// The line the command is shown and matched as.
    pub open spec fn line(&self) -> Seq<char> {
        command_line(self.program_view(), self.args_view())
    }

    pub fn new(program: &str) -> (r: SystemCommand)
        ensures
            r.program_view() == program@,
            r.args_view() == Seq::<Seq<char>>::empty(),
            r.envs_view() == Seq::<(Seq<char>, Seq<char>)>::empty(),
    {
        let r = SystemCommand { program: program.to_string(), args: Vec::new(), envs: Vec::new() };
        assert(r.args_view() =~= Seq::<Seq<char>>::empty());
        assert(r.envs_view() =~= Seq::<(Seq<char>, Seq<char>)>::empty());
        r
    }

    /// Appends an argument.
    pub fn arg(&mut self, arg: &str) -> (r: &mut SystemCommand)
        ensures
            r.program_view() == old(self).program_view(),
            r.args_view() == old(self).args_view().push(arg@),
            r.envs_view() == old(self).envs_view(),
            *final(self) == *final(r),
    {
        self.args.push(arg.to_string());
        assert(self.args_view() =~= old(self).args_view().push(arg@));
        self
    }

    /// Sets an environment variable for the command.
    pub fn set_env(&mut self, key: &str, value: &str)
        ensures
            final(self).program_view() == old(self).program_view(),
            final(self).args_view() == old(self).args_view(),
            final(self).envs_view() == old(self).envs_view().push((key@, value@)),
    {
        self.envs.push((key.to_string(), value.to_string()));
        assert(self.envs_view() =~= old(self).envs_view().push((key@, value@)));
    }

    pub fn get_program(&self) -> (r: &str)
        ensures
            r@ == self.program_view(),
    {
        self.program.as_str()
    }

    pub fn get_args(&self) -> (r: &Vec<String>)
        ensures
            string_views(r@) == self.args_view(),
    {
        &self.args
    }

    pub fn get_envs(&self) -> (r: &Vec<(String, String)>)
        ensures
            Seq::new(r@.len(), |i: int| (r@[i].0@, r@[i].1@)) == self.envs_view(),
    {
        &self.envs
    }

    /// The program and its arguments joined by spaces.
    pub fn get_command(&self) -> (r: String)
        ensures
            r@ == self.line(),
    {
        let mut line = self.program.clone();
        let mut i: usize = 0;
        proof { reveal_strlit(" "); }
        while i < self.args.len()
            invariant
                0 <= i <= self.args@.len(),
                line@ == command_line(self.program_view(), self.args_view().take(i as int)),
            decreases self.args@.len() - i,
        {
            proof {
                reveal_strlit(" ");
                assert(self.args_view().take(i as int + 1).drop_last() =~= self.args_view().take(i as int));
                assert(self.args_view().take(i as int + 1).last() == self.args@[i as int]@);
            }
            line.append(" ");
            line.append(self.args[i].as_str());
            i = i + 1;
        }
        assert(self.args_view().take(i as int) =~= self.args_view());
        line
    }
}

impl Clone for SystemCommand {
    fn clone(&self) -> (r: SystemCommand)
        ensures
            r.program_view() == self.program_view(),
            r.args_view() == self.args_view(),
            r.envs_view() == self.envs_view(),
    {
        let mut args: Vec<String> = Vec::new();
        let mut i: usize = 0;
        while i < self.args.len()
            invariant
                0 <= i <= self.args@.len(),
                args@ == self.args@.take(i as int),
            decreases self.args@.len() - i,
        {
            args.push(self.args[i].clone());
            assert(args@ =~= self.args@.take(i as int + 1));
            i = i + 1;
        }
        let mut envs: Vec<(String, String)> = Vec::new();
        let mut j: usize = 0;
        while j < self.envs.len()
            invariant
                0 <= j <= self.envs@.len(),
                envs@ == self.envs@.take(j as int),
            decreases self.envs@.len() - j,
        {
            envs.push((self.envs[j].0.clone(), self.envs[j].1.clone()));
            assert(envs@ =~= self.envs@.take(j as int + 1));
            j = j + 1;
        }
        assert(args@ =~= self.args@);
        assert(envs@ =~= self.envs@);
        SystemCommand { program: self.program.clone(), args, envs }
    }
}

} // verus!
